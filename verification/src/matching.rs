//! Where one text occurs in another, and the text with each occurrence
//! replaced.
use vstd::prelude::*;
use vstd::string::*;

use crate::text;

verus! {

/// The text begins with the pattern.
pub open spec fn begins_with(text: Seq<char>, pattern: Seq<char>) -> bool {
    pattern.len() <= text.len() && text.take(pattern.len() as int) == pattern
}

/// How often the pattern occurs in the text, counted from the left without
/// overlaps. The empty pattern occurs before each character and at the end.
pub open spec fn occurrences(text: Seq<char>, pattern: Seq<char>) -> nat
    decreases text.len(),
{
    if pattern.len() == 0 {
        text.len() + 1
    } else if text.len() == 0 {
        0
    } else if begins_with(text, pattern) {
        1 + occurrences(text.skip(pattern.len() as int), pattern)
    } else {
        occurrences(text.skip(1), pattern)
    }
}

/// The text with each of those occurrences replaced.
pub open spec fn replaced(text: Seq<char>, pattern: Seq<char>, with: Seq<char>) -> Seq<char>
    decreases text.len(),
{
    if pattern.len() == 0 {
        if text.len() == 0 {
            with
        } else {
            with + seq![text[0]] + replaced(text.skip(1), pattern, with)
        }
    } else if text.len() == 0 {
        text
    } else if begins_with(text, pattern) {
        with + replaced(text.skip(pattern.len() as int), pattern, with)
    } else {
        seq![text[0]] + replaced(text.skip(1), pattern, with)
    }
}

/// Whether the pattern stands at the position `at` of the text.
fn occurs_at(chars: &Vec<char>, pattern: &Vec<char>, at: usize) -> (found: bool)
    requires
        at <= chars@.len(),
    ensures
        found == begins_with(chars@.skip(at as int), pattern@),
{
    if pattern.len() > chars.len() - at {
        return false;
    }
    let ghost here = chars@.skip(at as int).take(pattern@.len() as int);
    let mut i: usize = 0;
    while i < pattern.len()
        invariant
            at + pattern.len() <= chars.len(),
            here == chars@.skip(at as int).take(pattern@.len() as int),
            i <= pattern@.len(),
            here.take(i as int) == pattern@.take(i as int),
        decreases pattern@.len() - i,
    {
        if chars[at + i] != pattern[i] {
            proof {
                assert(here[i as int] != pattern@[i as int]);
            }
            return false;
        }
        proof {
            assert(here[i as int] == pattern@[i as int]);
            assert(here.take(i + 1) =~= here.take(i as int).push(here[i as int]));
            assert(pattern@.take(i + 1) =~= pattern@.take(i as int).push(pattern@[i as int]));
        }
        i = i + 1;
    }
    proof {
        assert(here.take(i as int) =~= here);
        assert(pattern@.take(i as int) =~= pattern@);
    }
    true
}

/// Counts the occurrences of the pattern in the text.
pub fn count_occurrences(text: &str, pattern: &str) -> (count: u128)
    ensures
        count == occurrences(text@, pattern@),
{
    let chars = text::char_list(text);
    let wanted = text::char_list(pattern);
    if wanted.len() == 0 {
        return chars.len() as u128 + 1;
    }
    let mut count: u128 = 0;
    let mut at: usize = 0;
    proof {
        assert(chars@.skip(0) =~= chars@);
    }
    while at < chars.len()
        invariant
            wanted@.len() > 0,
            count <= at <= chars@.len(),
            count + occurrences(chars@.skip(at as int), wanted@) == occurrences(chars@, wanted@),
        decreases chars@.len() - at,
    {
        let ghost rest = chars@.skip(at as int);
        if occurs_at(&chars, &wanted, at) {
            proof {
                assert(rest.skip(wanted@.len() as int) =~= chars@.skip(at + wanted@.len()));
            }
            count = count + 1;
            at = at + wanted.len();
        } else {
            proof {
                assert(rest.skip(1) =~= chars@.skip(at + 1));
            }
            at = at + 1;
        }
    }
    count
}

/// Replaces each occurrence of the pattern in the text.
pub fn replace_occurrences(text: &str, pattern: &str, with: &str) -> (result: String)
    ensures
        result@ == replaced(text@, pattern@, with@),
{
    let chars = text::char_list(text);
    let wanted = text::char_list(pattern);
    let mut result = String::new();
    let mut at: usize = 0;
    proof {
        assert(chars@.skip(0) =~= chars@);
        assert(result@ + replaced(chars@, wanted@, with@) =~= replaced(chars@, wanted@, with@));
    }
    while at < chars.len()
        invariant
            at <= chars@.len(),
            result@ + replaced(chars@.skip(at as int), wanted@, with@) == replaced(
                chars@,
                wanted@,
                with@,
            ),
        decreases chars@.len() - at,
    {
        let ghost rest = chars@.skip(at as int);
        let ghost before = result@;
        if wanted.len() > 0 && occurs_at(&chars, &wanted, at) {
            result.append(with);
            proof {
                let tail = chars@.skip(at + wanted@.len());
                assert(rest.skip(wanted@.len() as int) =~= tail);
                assert(result@ + replaced(tail, wanted@, with@) =~= before + (with@ + replaced(
                    tail,
                    wanted@,
                    with@,
                )));
            }
            at = at + wanted.len();
        } else {
            if wanted.len() == 0 {
                result.append(with);
            }
            result.push(chars[at]);
            proof {
                let tail = chars@.skip(at + 1);
                assert(rest.skip(1) =~= tail);
                assert(result@ + replaced(tail, wanted@, with@) =~= before + replaced(
                    rest,
                    wanted@,
                    with@,
                ));
            }
            at = at + 1;
        }
    }
    proof {
        assert(chars@.skip(at as int).len() == 0);
        assert(result@ + chars@.skip(at as int) =~= result@);
    }
    if wanted.len() == 0 {
        result.append(with);
    }
    result
}

/// The pattern stands somewhere in the text.
pub open spec fn contains(text: Seq<char>, pattern: Seq<char>) -> bool {
    exists|at: int| #[trigger] stands_at(text, pattern, at)
}

/// The pattern stands at the position `at` of the text.
pub open spec fn stands_at(text: Seq<char>, pattern: Seq<char>, at: int) -> bool {
    0 <= at <= text.len() - pattern.len() && text.subrange(at, at + pattern.len()) == pattern
}

/// The pieces with one more character before the first of them.
pub open spec fn before_pieces(c: char, pieces: Seq<Seq<char>>) -> Seq<Seq<char>> {
    seq![seq![c] + pieces[0]] + pieces.skip(1)
}

/// The pieces of the text that are left between the occurrences of the
/// pattern.
pub open spec fn pieces_of(text: Seq<char>, pattern: Seq<char>) -> Seq<Seq<char>>
    decreases text.len(),
{
    if pattern.len() == 0 {
        if text.len() == 0 {
            seq![text, text]
        } else {
            seq![Seq::empty()] + before_pieces(text[0], pieces_of(text.skip(1), pattern))
        }
    } else if text.len() == 0 {
        seq![text]
    } else if begins_with(text, pattern) {
        seq![Seq::empty()] + pieces_of(text.skip(pattern.len() as int), pattern)
    } else {
        before_pieces(text[0], pieces_of(text.skip(1), pattern))
    }
}

/// A character before the first piece comes before the joined pieces.
proof fn lemma_join_before_pieces(c: char, pieces: Seq<Seq<char>>, separator: Seq<char>)
    requires
        pieces.len() > 0,
    ensures
        text::joined(before_pieces(c, pieces), separator) == seq![c] + text::joined(
            pieces,
            separator,
        ),
{
    let rest = pieces.skip(1);
    assert(pieces =~= seq![pieces[0]] + rest);
    if rest.len() == 0 {
        assert(pieces =~= seq![pieces[0]]);
        assert(before_pieces(c, pieces) =~= seq![seq![c] + pieces[0]]);
        assert(text::joined(pieces, separator) == pieces[0]);
        assert(text::joined(before_pieces(c, pieces), separator) == seq![c] + pieces[0]);
    } else {
        text::lemma_joined_first(pieces[0], rest, separator);
        text::lemma_joined_first(seq![c] + pieces[0], rest, separator);
        assert((seq![c] + pieces[0]) + separator + text::joined(rest, separator) =~= seq![c] + (
        pieces[0] + separator + text::joined(rest, separator)));
    }
}

/// Replacing each occurrence of a pattern joins the pieces between them with
/// the new text. There is one piece more than there are occurrences.
pub proof fn replaced_joins_the_pieces(
    text: Seq<char>,
    pattern: Seq<char>,
    with: Seq<char>,
)
    ensures
        pieces_of(text, pattern).len() == occurrences(text, pattern) + 1,
        text::joined(pieces_of(text, pattern), with) == replaced(text, pattern, with),
    decreases text.len(),
{
    let pieces = pieces_of(text, pattern);
    let none = Seq::<char>::empty();
    if pattern.len() == 0 {
        if text.len() == 0 {
            assert(pieces =~= seq![text] + seq![text]);
            text::lemma_joined_first(text, seq![text], with);
            assert(text::joined(seq![text], with) == text);
            assert(text + with + text =~= with);
        } else {
            let rest = pieces_of(text.skip(1), pattern);
            replaced_joins_the_pieces(text.skip(1), pattern, with);
            lemma_join_before_pieces(text[0], rest, with);
            text::lemma_joined_first(none, before_pieces(text[0], rest), with);
            assert(none + with + (seq![text[0]] + text::joined(rest, with)) =~= with
                + seq![text[0]] + text::joined(rest, with));
        }
    } else if text.len() == 0 {
        assert(text::joined(seq![text], with) == text);
    } else if begins_with(text, pattern) {
        let rest = pieces_of(text.skip(pattern.len() as int), pattern);
        replaced_joins_the_pieces(text.skip(pattern.len() as int), pattern, with);
        text::lemma_joined_first(none, rest, with);
        assert(none + with + text::joined(rest, with) =~= with + text::joined(rest, with));
    } else {
        let rest = pieces_of(text.skip(1), pattern);
        replaced_joins_the_pieces(text.skip(1), pattern, with);
        lemma_join_before_pieces(text[0], rest, with);
    }
}

/// Replacing a pattern by itself changes nothing.
pub proof fn replaced_by_itself(text: Seq<char>, pattern: Seq<char>)
    ensures
        replaced(text, pattern, pattern) == text,
    decreases text.len(),
{
    if text.len() > 0 {
        if pattern.len() == 0 {
            replaced_by_itself(text.skip(1), pattern);
            assert(pattern + seq![text[0]] + text.skip(1) =~= text);
        } else if begins_with(text, pattern) {
            replaced_by_itself(text.skip(pattern.len() as int), pattern);
            assert(pattern + text.skip(pattern.len() as int) =~= text.take(pattern.len() as int)
                + text.skip(pattern.len() as int));
            assert(text.take(pattern.len() as int) + text.skip(pattern.len() as int) =~= text);
        } else {
            replaced_by_itself(text.skip(1), pattern);
            assert(seq![text[0]] + text.skip(1) =~= text);
        }
    }
}

/// A text is its pieces, joined with the pattern.
pub proof fn pieces_join_to_the_text(text: Seq<char>, pattern: Seq<char>)
    ensures
        text::joined(pieces_of(text, pattern), pattern) == text,
{
    replaced_joins_the_pieces(text, pattern, pattern);
    replaced_by_itself(text, pattern);
}

/// The first piece is what the text begins with.
proof fn lemma_first_piece(text: Seq<char>, pattern: Seq<char>)
    ensures
        pieces_of(text, pattern).len() > 0,
        begins_with(text, pieces_of(text, pattern)[0]),
{
    let pieces = pieces_of(text, pattern);
    let first = pieces[0];
    pieces_join_to_the_text(text, pattern);
    replaced_joins_the_pieces(text, pattern, pattern);
    let rest = pieces.skip(1);
    assert(pieces =~= seq![first] + rest);
    if rest.len() == 0 {
        assert(pieces =~= seq![first]);
        assert(text::joined(pieces, pattern) == first);
        assert(text.take(first.len() as int) =~= first);
    } else {
        text::lemma_joined_first(first, rest, pattern);
        assert(text.take(first.len() as int) =~= first);
    }
}

/// No piece between the occurrences of a pattern holds the pattern: none is
/// passed over.
pub proof fn pieces_hold_no_occurrence(text: Seq<char>, pattern: Seq<char>, i: int)
    requires
        pattern.len() > 0,
        0 <= i < pieces_of(text, pattern).len(),
    ensures
        !contains(pieces_of(text, pattern)[i], pattern),
    decreases text.len(),
{
    let pieces = pieces_of(text, pattern);
    if text.len() == 0 {
    } else if begins_with(text, pattern) {
        let rest = text.skip(pattern.len() as int);
        if i > 0 {
            pieces_hold_no_occurrence(rest, pattern, i - 1);
            assert(pieces[i] == pieces_of(rest, pattern)[i - 1]);
        }
    } else {
        let rest = text.skip(1);
        replaced_joins_the_pieces(rest, pattern, pattern);
        pieces_hold_no_occurrence(rest, pattern, i);
        let piece = pieces_of(rest, pattern)[i];
        if i == 0 {
            lemma_first_piece(text, pattern);
            let longer = pieces[0];
            assert(longer == seq![text[0]] + piece);
            assert forall|at: int| !(#[trigger] stands_at(longer, pattern, at)) by {
                if stands_at(longer, pattern, at) {
                    if at == 0 {
                        assert(longer.take(pattern.len() as int) =~= longer.subrange(
                            0,
                            pattern.len() as int,
                        ));
                        assert(text.take(pattern.len() as int) =~= text.take(
                            longer.len() as int,
                        ).take(pattern.len() as int));
                        assert(begins_with(text, pattern));
                    } else {
                        assert(piece.subrange(at - 1, at - 1 + pattern.len()) =~= longer.subrange(
                            at,
                            at + pattern.len(),
                        ));
                        assert(stands_at(piece, pattern, at - 1));
                    }
                }
            }
        } else {
            assert(pieces[i] == piece);
        }
    }
}

/// A pattern is counted at least once if and only if the text holds it.
pub proof fn counted_if_contained(text: Seq<char>, pattern: Seq<char>)
    ensures
        occurrences(text, pattern) > 0 <==> contains(text, pattern),
    decreases text.len(),
{
    if pattern.len() == 0 {
        assert(text.subrange(0, 0) =~= pattern);
        assert(stands_at(text, pattern, 0));
    } else if text.len() > 0 {
        if begins_with(text, pattern) {
            assert(text.subrange(0, pattern.len() as int) =~= text.take(pattern.len() as int));
            assert(stands_at(text, pattern, 0));
        } else {
            let rest = text.skip(1);
            counted_if_contained(rest, pattern);
            if contains(text, pattern) {
                let at = choose|at: int| #[trigger] stands_at(text, pattern, at);
                if at == 0 {
                    assert(text.take(pattern.len() as int) =~= text.subrange(
                        0,
                        pattern.len() as int,
                    ));
                } else {
                    assert(rest.subrange(at - 1, at - 1 + pattern.len()) =~= text.subrange(
                        at,
                        at + pattern.len(),
                    ));
                    assert(stands_at(rest, pattern, at - 1));
                }
            }
            if contains(rest, pattern) {
                let at = choose|at: int| #[trigger] stands_at(rest, pattern, at);
                assert(text.subrange(at + 1, at + 1 + pattern.len()) =~= rest.subrange(
                    at,
                    at + pattern.len(),
                ));
                assert(stands_at(text, pattern, at + 1));
            }
        }
    }
}

/// What a pattern does not occur in, replacing it does not change.
pub proof fn absent_pattern_changes_nothing(
    text: Seq<char>,
    pattern: Seq<char>,
    with: Seq<char>,
)
    requires
        !contains(text, pattern),
    ensures
        replaced(text, pattern, with) == text,
{
    counted_if_contained(text, pattern);
    replaced_joins_the_pieces(text, pattern, with);
    pieces_join_to_the_text(text, pattern);
    let pieces = pieces_of(text, pattern);
    assert(pieces.drop_last().len() == 0);
}

/// Replacing the only occurrence of a pattern keeps what comes before it and
/// what comes after it.
pub proof fn single_replacement(text: Seq<char>, pattern: Seq<char>, with: Seq<char>)
    requires
        occurrences(text, pattern) == 1,
    ensures
        exists|before: Seq<char>, after: Seq<char>|
            text == #[trigger] (before + pattern + after) && replaced(text, pattern, with) == before
                + with + after,
{
    let pieces = pieces_of(text, pattern);
    let before = pieces[0];
    let after = pieces[1];
    replaced_joins_the_pieces(text, pattern, with);
    pieces_join_to_the_text(text, pattern);
    assert(pieces =~= seq![before] + seq![after]);
    text::lemma_joined_first(before, seq![after], pattern);
    text::lemma_joined_first(before, seq![after], with);
    assert(text::joined(seq![after], pattern) == after);
    assert(text::joined(seq![after], with) == after);
    assert(text == before + pattern + after);
}

/// Each occurrence that is replaced changes the length by as much as the two
/// texts differ in length.
proof fn lemma_replaced_len(text: Seq<char>, pattern: Seq<char>, with: Seq<char>)
    ensures
        replaced(text, pattern, with).len() == text.len() + occurrences(text, pattern) * (
        with.len() - pattern.len()),
    decreases text.len(),
{
    let growth = with.len() - pattern.len();
    let count = occurrences(text, pattern);
    if text.len() > 0 {
        if pattern.len() == 0 {
            lemma_replaced_len(text.skip(1), pattern, with);
            assert(count * growth == (count - 1) * growth + growth) by (nonlinear_arith);
        } else if begins_with(text, pattern) {
            lemma_replaced_len(text.skip(pattern.len() as int), pattern, with);
            assert(count * growth == (count - 1) * growth + growth) by (nonlinear_arith);
        } else {
            lemma_replaced_len(text.skip(1), pattern, with);
        }
    } else {
        assert(0 * growth == 0 && 1 * growth == growth) by (nonlinear_arith);
    }
}

/// Replacing something that occurs by something else changes the text.
pub proof fn replacing_changes_the_text(
    text: Seq<char>,
    pattern: Seq<char>,
    with: Seq<char>,
)
    requires
        occurrences(text, pattern) > 0,
        pattern != with,
    ensures
        replaced(text, pattern, with) != text,
{
    let count = occurrences(text, pattern);
    let growth = with.len() - pattern.len();
    lemma_replaced_len(text, pattern, with);
    if growth != 0 {
        assert(count * growth != 0) by (nonlinear_arith)
            requires
                count > 0,
                growth != 0,
        ;
    } else {
        let pieces = pieces_of(text, pattern);
        let first = pieces[0];
        let rest = pieces.skip(1);
        replaced_joins_the_pieces(text, pattern, with);
        pieces_join_to_the_text(text, pattern);
        assert(pieces =~= seq![first] + rest);
        text::lemma_joined_first(first, rest, pattern);
        text::lemma_joined_first(first, rest, with);
        let start = first.len() as int;
        let end = start + pattern.len();
        assert(text.subrange(start, end) =~= pattern);
        assert(replaced(text, pattern, with).subrange(start, end) =~= with);
    }
}

/// Occurrences are taken from the left: what comes before the first place
/// where the pattern stands is kept, the pattern there is counted and replaced,
/// and what comes after it is treated in the same way.
pub proof fn first_occurrence_is_replaced(
    before: Seq<char>,
    pattern: Seq<char>,
    after: Seq<char>,
    with: Seq<char>,
)
    requires
        pattern.len() > 0,
        forall|at: int|
            0 <= at < before.len() ==> #[trigger] (before + pattern).subrange(
                at,
                at + pattern.len(),
            ) != pattern,
    ensures
        occurrences(before + pattern + after, pattern) == 1 + occurrences(after, pattern),
        replaced(before + pattern + after, pattern, with) == before + with + replaced(
            after,
            pattern,
            with,
        ),
    decreases before.len(),
{
    let text = before + pattern + after;
    let size = pattern.len() as int;
    if before.len() == 0 {
        assert(text.take(size) =~= pattern);
        assert(text.skip(size) =~= after);
        assert(before + with + replaced(after, pattern, with) =~= with + replaced(
            after,
            pattern,
            with,
        ));
    } else {
        let less = before.skip(1);
        let at: int = 0;
        assert((before + pattern).subrange(at, at + pattern.len()) != pattern);
        assert(text.take(size) =~= (before + pattern).subrange(0, size));
        assert forall|at: int| 0 <= at < less.len() implies #[trigger] (less + pattern).subrange(
            at,
            at + size,
        ) != pattern by {
            assert((less + pattern).subrange(at, at + size) =~= (before + pattern).subrange(
                at + 1,
                at + 1 + size,
            ));
        }
        first_occurrence_is_replaced(less, pattern, after, with);
        assert(text.skip(1) =~= less + pattern + after);
        assert(seq![text[0]] + (less + with + replaced(after, pattern, with)) =~= before + with
            + replaced(after, pattern, with));
    }
}

/// Where the pattern stands nowhere, nothing is counted and nothing replaced.
pub proof fn absent_pattern_is_not_counted(text: Seq<char>, pattern: Seq<char>, with: Seq<char>)
    requires
        forall|at: int|
            0 <= at <= text.len() - pattern.len() ==> #[trigger] text.subrange(
                at,
                at + pattern.len(),
            ) != pattern,
    ensures
        occurrences(text, pattern) == 0,
        replaced(text, pattern, with) == text,
{
    if contains(text, pattern) {
        let at = choose|at: int| #[trigger] stands_at(text, pattern, at);
        assert(text.subrange(at, at + pattern.len()) != pattern);
    }
    counted_if_contained(text, pattern);
    absent_pattern_changes_nothing(text, pattern, with);
}

/// The empty pattern stands before each character and at the end: there the
/// new text is put in, and every character is kept.
pub proof fn empty_pattern_stands_everywhere(c: char, rest: Seq<char>, with: Seq<char>)
    ensures
        occurrences(rest, Seq::empty()) == rest.len() + 1,
        replaced(seq![c] + rest, Seq::empty(), with) == with + seq![c] + replaced(
            rest,
            Seq::empty(),
            with,
        ),
        replaced(Seq::empty(), Seq::empty(), with) == with,
{
    assert((seq![c] + rest).skip(1) =~= rest);
}

} // verus!
