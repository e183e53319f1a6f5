//! Joining strings with a separator and splitting a line on a character.

use vstd::prelude::*;

verus! {

/// The elements of `parts` written one after another, with `sep` between
/// neighbours. Nothing is joined to the empty string.
pub open spec fn joined(parts: Seq<Seq<char>>, sep: Seq<char>) -> Seq<char>
    decreases parts.len(),
{
    if parts.len() == 0 {
        Seq::empty()
    } else if parts.len() == 1 {
        parts[0]
    } else {
        joined(parts.drop_last(), sep) + sep + parts.last()
    }
}

/// The pieces into which the occurrences of `sep` cut `line`: every `sep`
/// closes one piece and opens the next, so a line with `k` separators has
/// `k + 1` pieces, some of which may be empty.
pub open spec fn fields(line: Seq<char>, sep: char) -> Seq<Seq<char>>
    decreases line.len(),
{
    if line.len() == 0 {
        seq![Seq::empty()]
    } else {
        let before = fields(line.drop_last(), sep);
        if line.last() == sep {
            before.push(Seq::empty())
        } else {
            before.drop_last().push(before.last().push(line.last()))
        }
    }
}

/// Whether `sep` occurs nowhere in `piece`.
pub open spec fn free_of(piece: Seq<char>, sep: char) -> bool {
    forall|i: int| 0 <= i < piece.len() ==> piece[i] != sep
}

/// A line always has at least one piece.
pub proof fn lemma_fields_nonempty(line: Seq<char>, sep: char)
    ensures
        fields(line, sep).len() >= 1,
    decreases line.len(),
{
    if line.len() > 0 {
        lemma_fields_nonempty(line.drop_last(), sep);
    }
}

/// No piece of a line holds the separator.
pub proof fn lemma_fields_free_of_separator(line: Seq<char>, sep: char)
    ensures
        forall|k: int| 0 <= k < fields(line, sep).len() ==> free_of(#[trigger] fields(line, sep)[k], sep),
    decreases line.len(),
{
    if line.len() > 0 {
        lemma_fields_nonempty(line.drop_last(), sep);
        lemma_fields_free_of_separator(line.drop_last(), sep);
    }
}

/// Joining the pieces of a line with the separator gives the line back.
pub proof fn lemma_join_of_fields(line: Seq<char>, sep: char)
    ensures
        joined(fields(line, sep), seq![sep]) == line,
    decreases line.len(),
{
    if line.len() > 0 {
        let before = fields(line.drop_last(), sep);
        lemma_fields_nonempty(line.drop_last(), sep);
        lemma_join_of_fields(line.drop_last(), sep);
        if line.last() == sep {
            let all = before.push(Seq::empty());
            assert(all.drop_last() == before);
            assert(joined(all, seq![sep]) == line.drop_last() + seq![sep] + Seq::<char>::empty());
            assert(line.drop_last() + seq![sep] + Seq::<char>::empty() == line);
        } else {
            let grown = before.last().push(line.last());
            let all = before.drop_last().push(grown);
            if before.len() == 1 {
                assert(all[0] == line);
            } else {
                assert(all.drop_last() == before.drop_last());
                assert(joined(all, seq![sep]) == joined(before.drop_last(), seq![sep]) + seq![sep]
                    + grown);
                assert(joined(before.drop_last(), seq![sep]) + seq![sep] + grown == (joined(
                    before.drop_last(),
                    seq![sep],
                ) + seq![sep] + before.last()).push(line.last()));
                assert(line.drop_last().push(line.last()) == line);
            }
        }
    }
}

/// Appending text without a separator to a line lengthens its last piece and
/// leaves the others alone.
pub proof fn lemma_fields_of_extension(line: Seq<char>, tail: Seq<char>, sep: char)
    requires
        free_of(tail, sep),
    ensures
        fields(line + tail, sep) == fields(line, sep).drop_last().push(
            fields(line, sep).last() + tail,
        ),
    decreases tail.len(),
{
    lemma_fields_nonempty(line, sep);
    let pieces = fields(line, sep);
    if tail.len() == 0 {
        assert(line + tail == line);
        assert(pieces.last() + tail == pieces.last());
        assert(pieces.drop_last().push(pieces.last()) == pieces);
    } else {
        let shorter = tail.drop_last();
        lemma_fields_of_extension(line, shorter, sep);
        assert((line + tail).drop_last() == line + shorter);
        assert((line + tail).last() == tail.last());
        let before = fields(line + shorter, sep);
        assert(before.drop_last() == pieces.drop_last());
        assert(before.last().push(tail.last()) == pieces.last() + tail);
    }
}

/// Splitting undoes joining: the pieces of a joined line are the parts that
/// were joined, provided there is at least one part and none holds the
/// separator.
pub proof fn lemma_fields_of_join(parts: Seq<Seq<char>>, sep: char)
    requires
        parts.len() >= 1,
        forall|k: int| 0 <= k < parts.len() ==> free_of(#[trigger] parts[k], sep),
    ensures
        fields(joined(parts, seq![sep]), sep) == parts,
    decreases parts.len(),
{
    let empty = Seq::<char>::empty();
    if parts.len() == 1 {
        lemma_fields_of_extension(empty, parts[0], sep);
        assert(empty + parts[0] == parts[0]);
        assert(fields(empty, sep) == seq![empty]);
        assert(seq![empty].drop_last().push(empty + parts[0]) == parts);
    } else {
        let front = parts.drop_last();
        lemma_fields_of_join(front, sep);
        let line = joined(front, seq![sep]);
        let cut = line + seq![sep];
        assert(cut.drop_last() == line);
        assert(fields(cut, sep) == front.push(empty));
        lemma_fields_of_extension(cut, parts.last(), sep);
        assert(front.push(empty).drop_last() == front);
        assert(empty + parts.last() == parts.last());
        assert(front.push(parts.last()) == parts);
    }
}

/// A separator between two lines keeps their pieces apart: the pieces of the
/// whole are those of the first line followed by those of the second.
pub proof fn lemma_fields_of_concat(first: Seq<char>, second: Seq<char>, sep: char)
    ensures
        fields(first + seq![sep] + second, sep) == fields(first, sep) + fields(second, sep),
    decreases second.len(),
{
    let whole = first + seq![sep] + second;
    lemma_fields_nonempty(first, sep);
    if second.len() == 0 {
        assert(whole.drop_last() == first);
        assert(fields(first, sep).push(Seq::empty()) == fields(first, sep) + fields(second, sep));
    } else {
        let shorter = second.drop_last();
        lemma_fields_of_concat(first, shorter, sep);
        lemma_fields_nonempty(shorter, sep);
        assert(whole.drop_last() == first + seq![sep] + shorter);
        assert(whole.last() == second.last());
        let left = fields(first, sep);
        let right = fields(shorter, sep);
        if second.last() == sep {
            assert((left + right).push(Seq::empty()) == left + right.push(Seq::empty()));
        } else {
            let grown = right.last().push(second.last());
            assert((left + right).last() == right.last());
            assert((left + right).drop_last() == left + right.drop_last());
            assert((left + right.drop_last()).push(grown) == left + right.drop_last().push(grown));
        }
    }
}

/// A line without a separator is its own single piece.
pub proof fn lemma_fields_of_word(word: Seq<char>, sep: char)
    requires
        free_of(word, sep),
    ensures
        fields(word, sep) == seq![word],
{
    lemma_fields_of_join(seq![word], sep);
}

/// Joining brings in no character that neither the parts nor the separator
/// hold.
pub proof fn lemma_joined_free_of(parts: Seq<Seq<char>>, sep: Seq<char>, c: char)
    requires
        free_of(sep, c),
        forall|k: int| 0 <= k < parts.len() ==> free_of(#[trigger] parts[k], c),
    ensures
        free_of(joined(parts, sep), c),
    decreases parts.len(),
{
    if parts.len() >= 2 {
        lemma_joined_free_of(parts.drop_last(), sep, c);
    }
}

/// Joins `parts` with `sep` between neighbours.
pub fn join(parts: &Vec<String>, sep: &str) -> (line: String)
    ensures
        line@ == joined(parts.deep_view(), sep@),
{
    let mut line = String::new();
    let mut i: usize = 0;
    while i < parts.len()
        invariant
            i <= parts.len(),
            line@ == joined(parts.deep_view().take(i as int), sep@),
        decreases parts.len() - i,
    {
        proof {
            let next = parts.deep_view().take(i + 1);
            assert(next.drop_last() == parts.deep_view().take(i as int));
            assert(next.last() == parts[i as int]@);
            if i == 0 {
                assert(sep@.len() >= 0);
            }
        }
        if i > 0 {
            line.append(sep);
        }
        line.append(parts[i].as_str());
        i += 1;
    }
    proof {
        assert(parts.deep_view().take(parts.len() as int) == parts.deep_view());
    }
    line
}

/// Cuts `line` at every occurrence of `sep`.
pub fn split(line: &str, sep: char) -> (pieces: Vec<String>)
    ensures
        pieces.deep_view() == fields(line@, sep),
        pieces.len() >= 1,
{
    let n = line.unicode_len();
    let mut pieces: Vec<String> = Vec::new();
    let mut start: usize = 0;
    let mut i: usize = 0;
    proof {
        assert(line@.take(0).len() == 0);
        assert(line@.subrange(0, 0) =~= Seq::<char>::empty());
        assert(pieces.deep_view().push(line@.subrange(0, 0)) =~= seq![Seq::<char>::empty()]);
    }
    while i < n
        invariant
            n == line@.len(),
            start <= i <= n,
            pieces.deep_view().push(line@.subrange(start as int, i as int)) == fields(
                line@.take(i as int),
                sep,
            ),
        decreases n - i,
    {
        let c = line.get_char(i);
        let ghost closed = pieces.deep_view();
        let ghost open = line@.subrange(start as int, i as int);
        proof {
            let seen = line@.take(i + 1);
            assert(seen.drop_last() =~= line@.take(i as int));
            assert(seen.last() == c);
            assert(closed.push(open).drop_last() =~= closed);
            assert(closed.push(open).last() == open);
        }
        if c == sep {
            let piece = String::from_str(line.substring_char(start, i));
            pieces.push(piece);
            start = i + 1;
            proof {
                assert(pieces.deep_view() =~= closed.push(open));
                assert(line@.subrange(start as int, i + 1) =~= Seq::<char>::empty());
            }
        } else {
            proof {
                assert(line@.subrange(start as int, i + 1) =~= open.push(c));
            }
        }
        i += 1;
    }
    let ghost closed = pieces.deep_view();
    let piece = String::from_str(line.substring_char(start, n));
    pieces.push(piece);
    proof {
        assert(line@.take(n as int) =~= line@);
        assert(pieces.deep_view() =~= closed.push(line@.subrange(start as int, n as int)));
    }
    pieces
}

} // verus!
