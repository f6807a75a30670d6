//! The lines of a text, and a range of them with their numbers.
use vstd::prelude::*;
use vstd::string::*;

use crate::text;

verus! {

/// The position of the first line feed, or the length if there is none.
pub open spec fn line_feed(text: Seq<char>) -> nat
    decreases text.len(),
{
    if text.len() == 0 || text[0] == '\n' {
        0
    } else {
        1 + line_feed(text.skip(1))
    }
}

/// A terminated line without the carriage return that belongs to its ending.
pub open spec fn chomped(line: Seq<char>) -> Seq<char> {
    if line.len() > 0 && line.last() == '\r' {
        line.drop_last()
    } else {
        line
    }
}

/// The lines of a text. A line ends at a line feed, or at a carriage return
/// and a line feed; the ending is no part of the line, and the last line need
/// not have one.
pub open spec fn lines_of(text: Seq<char>) -> Seq<Seq<char>>
    decreases text.len(),
{
    if text.len() == 0 {
        Seq::empty()
    } else {
        let end = line_feed(text);
        if end >= text.len() {
            seq![text]
        } else {
            seq![chomped(text.take(end as int))] + lines_of(text.skip(end as int + 1))
        }
    }
}

/// The first line feed is where `end` is, if none stands before it.
proof fn lemma_line_feed(text: Seq<char>, end: int)
    requires
        0 <= end <= text.len(),
        forall|i: int| 0 <= i < end ==> text[i] != '\n',
        end < text.len() ==> text[end] == '\n',
    ensures
        line_feed(text) == end,
    decreases text.len(),
{
    if end > 0 {
        let rest = text.skip(1);
        assert forall|i: int| 0 <= i < end - 1 implies rest[i] != '\n' by {
            assert(rest[i] == text[i + 1]);
        }
        lemma_line_feed(rest, end - 1);
    }
}

/// Splits a text into its lines.
pub fn lines(text: &str) -> (list: Vec<String>)
    ensures
        text::texts(list@) == lines_of(text@),
{
    let chars = text::char_list(text);
    let mut list: Vec<String> = Vec::new();
    let mut start: usize = 0;
    let mut i: usize = 0;
    proof {
        assert(chars@.skip(0) =~= chars@);
        assert(text::texts(list@) + lines_of(chars@) =~= lines_of(chars@));
    }
    while i < chars.len()
        invariant
            start <= i <= chars@.len(),
            forall|k: int| start <= k < i ==> chars@[k] != '\n',
            text::texts(list@) + lines_of(chars@.skip(start as int)) == lines_of(chars@),
        decreases chars@.len() - i,
    {
        if chars[i] == '\n' {
            let ghost rest = chars@.skip(start as int);
            let ghost before = text::texts(list@);
            let end: usize = if i > start && chars[i - 1] == '\r' {
                i - 1
            } else {
                i
            };
            let line = text::substring(&chars, start, end);
            proof {
                lemma_line_feed(rest, i - start);
                assert(rest.take(i - start) =~= chars@.subrange(start as int, i as int));
                assert(line@ =~= chomped(rest.take(i - start)));
                assert(rest.skip(i - start + 1) =~= chars@.skip(i + 1));
            }
            list.push(line);
            proof {
                assert(text::texts(list@) =~= before.push(line@));
                assert(before.push(line@) + lines_of(chars@.skip(i + 1)) =~= before + (seq![line@]
                    + lines_of(chars@.skip(i + 1))));
            }
            start = i + 1;
        }
        i = i + 1;
    }
    proof {
        let rest = chars@.skip(start as int);
        lemma_line_feed(rest, rest.len() as int);
    }
    if start < chars.len() {
        let line = text::substring(&chars, start, chars.len());
        proof {
            assert(line@ =~= chars@.skip(start as int));
            assert(text::texts(list@.push(line)) =~= text::texts(list@) + seq![line@]);
        }
        list.push(line);
    } else {
        proof {
            assert(text::texts(list@) + Seq::<Seq<char>>::empty() =~= text::texts(list@));
        }
    }
    list
}

/// The width to which line numbers are aligned.
pub const NUMBER_WIDTH: usize = 6;

/// A line number, set flush right in a column of `NUMBER_WIDTH` characters. A
/// longer number takes the room that it needs.
pub open spec fn aligned(number: nat) -> Seq<char> {
    let digits = text::decimal(number);
    if digits.len() >= NUMBER_WIDTH {
        digits
    } else {
        Seq::new((NUMBER_WIDTH - digits.len()) as nat, |i: int| ' ') + digits
    }
}

/// A line behind its number and a tab.
pub open spec fn numbered_line(number: nat, line: Seq<char>) -> Seq<char> {
    aligned(number) + seq!['\t'] + line
}

/// How many of `total` lines are left after `skip`, but at most `take`.
pub open spec fn range_len(total: nat, skip: nat, take: nat) -> nat {
    if skip >= total {
        0
    } else if take < total - skip {
        take
    } else {
        (total - skip) as nat
    }
}

/// The lines after the first `skip`, at most `take` of them, each with its
/// number. The first line of the whole list has number 1.
pub open spec fn numbered(lines: Seq<Seq<char>>, skip: nat, take: nat) -> Seq<Seq<char>> {
    Seq::new(
        range_len(lines.len(), skip, take),
        |i: int| numbered_line((skip + i + 1) as nat, lines[skip + i]),
    )
}

/// Writes a line number flush right.
pub fn aligned_text(number: u128) -> (column: String)
    ensures
        column@ == aligned(number as nat),
{
    let digits = text::decimal_text(number);
    let width: usize = digits.as_str().unicode_len();
    if width >= NUMBER_WIDTH {
        return digits;
    }
    let mut column = String::new();
    let mut i: usize = 0;
    while i < NUMBER_WIDTH - width
        invariant
            width < NUMBER_WIDTH,
            i <= NUMBER_WIDTH - width,
            column@ == Seq::new(i as nat, |k: int| ' '),
        decreases NUMBER_WIDTH - i,
    {
        column.push(' ');
        i = i + 1;
        proof {
            assert(column@ =~= Seq::new(i as nat, |k: int| ' '));
        }
    }
    column.append(digits.as_str());
    column
}

/// The lines after the first `skip`, at most `take` of them, with their
/// numbers.
pub fn number_lines(list: &Vec<String>, skip: usize, take: usize) -> (range: Vec<String>)
    ensures
        text::texts(range@) == numbered(text::texts(list@), skip as nat, take as nat),
{
    let mut range: Vec<String> = Vec::new();
    let total: usize = list.len();
    let count: usize = if skip >= total {
        0
    } else if take < total - skip {
        take
    } else {
        total - skip
    };
    let ghost all = numbered(text::texts(list@), skip as nat, take as nat);
    let mut i: usize = 0;
    while i < count
        invariant
            total == list@.len(),
            count == range_len(total as nat, skip as nat, take as nat),
            all == numbered(text::texts(list@), skip as nat, take as nat),
            i <= count,
            text::texts(range@) == all.take(i as int),
        decreases count - i,
    {
        let at: usize = skip + i;
        let mut line = aligned_text(at as u128 + 1);
        line.push('\t');
        line.append(list[at].as_str());
        proof {
            assert(line@ =~= all[i as int]);
            assert(text::texts(range@.push(line)) =~= text::texts(range@).push(line@));
            assert(all.take(i + 1) =~= all.take(i as int).push(all[i as int]));
        }
        range.push(line);
        i = i + 1;
    }
    proof {
        assert(all.take(count as int) =~= all);
    }
    range
}

/// What a range of lines shows of a line does not depend on the range: it is
/// what all lines together show of it.
pub proof fn range_shows_lines_of_the_whole(
    lines: Seq<Seq<char>>,
    skip: nat,
    take: nat,
    i: int,
)
    requires
        0 <= i < numbered(lines, skip, take).len(),
    ensures
        numbered(lines, 0, lines.len()).len() == lines.len(),
        numbered(lines, skip, take)[i] == numbered(lines, 0, lines.len())[skip + i],
{
}

/// Two ranges, one right after the other, show what the range over both shows.
pub proof fn ranges_compose(lines: Seq<Seq<char>>, skip: nat, first: nat, second: nat)
    ensures
        numbered(lines, skip, first) + numbered(lines, skip + first, second) == numbered(
            lines,
            skip,
            first + second,
        ),
{
    assert(numbered(lines, skip, first) + numbered(lines, skip + first, second) =~= numbered(
        lines,
        skip,
        first + second,
    ));
}

/// A number takes at least its column.
pub proof fn numbers_fill_their_column(number: nat)
    ensures
        aligned(number).len() >= NUMBER_WIDTH,
{
}

/// Before the first line feed there is none, and there it is.
proof fn lemma_first_line_feed(text: Seq<char>)
    ensures
        line_feed(text) <= text.len(),
        forall|i: int| 0 <= i < line_feed(text) ==> text[i] != '\n',
        line_feed(text) < text.len() ==> text[line_feed(text) as int] == '\n',
    decreases text.len(),
{
    if text.len() > 0 && text[0] != '\n' {
        let rest = text.skip(1);
        lemma_first_line_feed(rest);
        assert forall|i: int| 0 <= i < line_feed(text) implies text[i] != '\n' by {
            if i > 0 {
                assert(rest[i - 1] == text[i]);
            }
        }
    }
}

/// No line holds a line feed.
pub proof fn lines_hold_no_line_feed(text: Seq<char>, i: int, k: int)
    requires
        0 <= i < lines_of(text).len(),
        0 <= k < lines_of(text)[i].len(),
    ensures
        lines_of(text)[i][k] != '\n',
    decreases text.len(),
{
    lemma_first_line_feed(text);
    let end = line_feed(text);
    if end < text.len() && i > 0 {
        lines_hold_no_line_feed(text.skip(end as int + 1), i - 1, k);
    }
}

/// The lines of a text in which no carriage return stands before a line feed,
/// joined with line feeds, are the text, but for a line feed at its end.
pub proof fn lines_join_to_the_text(text: Seq<char>)
    requires
        forall|i: int| 0 < i < text.len() && #[trigger] text[i] == '\n' ==> text[i - 1] != '\r',
    ensures
        text == if text.len() > 0 && text.last() == '\n' {
            text::joined(lines_of(text), seq!['\n']).push('\n')
        } else {
            text::joined(lines_of(text), seq!['\n'])
        },
    decreases text.len(),
{
    let feed = seq!['\n'];
    lemma_first_line_feed(text);
    if text.len() > 0 {
        let end = line_feed(text) as int;
        if end >= text.len() {
            assert(text::joined(seq![text], feed) == text);
            assert(text[text.len() - 1] != '\n');
        } else {
            let line = text.take(end);
            let rest = text.skip(end + 1);
            assert(text[end] == '\n');
            assert(chomped(line) == line);
            if rest.len() == 0 {
                assert(lines_of(rest) =~= Seq::empty());
                assert(lines_of(text) =~= seq![line]);
                assert(text::joined(seq![line], feed) == line);
                assert(text =~= line.push('\n'));
            } else {
                assert forall|i: int|
                    0 < i < rest.len() && #[trigger] rest[i] == '\n' implies rest[i - 1] != '\r' by {
                    assert(text[end + 1 + i] == '\n');
                }
                lines_join_to_the_text(rest);
                lemma_first_line_feed(rest);
                assert(lines_of(rest).len() > 0);
                text::lemma_joined_first(line, lines_of(rest), feed);
                assert(text.last() == rest.last());
                assert(text =~= line + feed + rest);
                let tail = text::joined(lines_of(rest), feed);
                assert(line + feed + tail.push('\n') =~= (line + feed + tail).push('\n'));
            }
        }
    }
}

/// A text begins with its first line: what stands before the first line feed,
/// without a carriage return at its end. The lines after it are those of the
/// rest of the text.
pub proof fn first_line_comes_before_the_line_feed(line: Seq<char>, rest: Seq<char>)
    requires
        !line.contains('\n'),
    ensures
        lines_of(line + seq!['\n'] + rest).len() == 1 + lines_of(rest).len(),
        lines_of(line + seq!['\n'] + rest)[0] == if line.len() > 0 && line[line.len() - 1] == '\r' {
            line.subrange(0, line.len() - 1)
        } else {
            line
        },
        lines_of(line + seq!['\n'] + rest).skip(1) == lines_of(rest),
{
    let text = line + seq!['\n'] + rest;
    assert forall|i: int| 0 <= i < line.len() implies text[i] != '\n' by {
        assert(line.contains(line[i]));
    }
    lemma_line_feed(text, line.len() as int);
    assert(text.take(line.len() as int) =~= line);
    assert(text.skip(line.len() as int + 1) =~= rest);
    assert(lines_of(text).skip(1) =~= lines_of(rest));
}

/// A text without a line feed is one line, as it stands, and an empty text has
/// no line.
pub proof fn last_line_needs_no_line_feed(line: Seq<char>)
    requires
        !line.contains('\n'),
    ensures
        line.len() > 0 ==> lines_of(line) == seq![line],
        line.len() == 0 ==> lines_of(line).len() == 0,
{
    assert forall|i: int| 0 <= i < line.len() implies line[i] != '\n' by {
        assert(line.contains(line[i]));
    }
    lemma_line_feed(line, line.len() as int);
}

/// What stands before the tab of a numbered line: spaces and the number, six
/// characters or as many more as the number has digits.
proof fn lemma_column(number: nat)
    ensures
        forall|i: int| 0 <= i < aligned(number).len() - text::decimal(number).len()
            ==> #[trigger] aligned(number)[i] == ' ',
        text::decimal(number).len() <= aligned(number).len(),
        aligned(number).len() == if text::decimal(number).len() > 6 {
            text::decimal(number).len()
        } else {
            6
        },
        aligned(number).skip(aligned(number).len() - text::decimal(number).len())
            == text::decimal(number),
        forall|i: int| 0 <= i < aligned(number).len() ==> #[trigger] aligned(number)[i] != '\t',
{
    let digits = text::decimal(number);
    let column = aligned(number);
    text::decimals_mean_their_numbers(number);
    let pad = column.len() - digits.len();
    assert(column.skip(pad) =~= digits);
    assert forall|i: int| 0 <= i < column.len() implies #[trigger] column[i] != '\t' by {
        if i >= pad {
            assert(column[i] == digits[i - pad]);
        }
    }
}

/// The row is a number, a tab and the line, as it stands. There is no tab
/// before that one, the number is the last thing before it, and what is left
/// of six characters is spaces.
pub open spec fn is_row(row: Seq<char>, number: int, line: Seq<char>) -> bool {
    let tab = row.len() - line.len() - 1;
    exists|digits: Seq<char>|
        {
            &&& #[trigger] text::is_number(digits)
            &&& text::number_meant(digits) == number
            &&& tab == if digits.len() > 6 {
                digits.len()
            } else {
                6
            }
            &&& forall|k: int| 0 <= k < tab - digits.len() ==> #[trigger] row[k] == ' '
            &&& forall|k: int| 0 <= k < tab ==> #[trigger] row[k] != '\t'
            &&& row.subrange(tab - digits.len(), tab) == digits
            &&& row[tab] == '\t'
            &&& row.skip(tab + 1) == line
        }
}

/// Each row of a range shows the number of its line and the line itself.
pub proof fn rows_show_their_lines(lines: Seq<Seq<char>>, skip: nat, take: nat, i: int)
    requires
        0 <= i < numbered(lines, skip, take).len(),
    ensures
        is_row(numbered(lines, skip, take)[i], skip + i + 1, lines[skip + i]),
        ({
            let row = numbered(lines, skip, take)[i];
            exists|tab: int|
                {
                    &&& 0 <= tab < row.len() && #[trigger] row[tab] == '\t'
                    &&& forall|k: int| 0 <= k < tab ==> row[k] != '\t'
                    &&& row.skip(tab + 1) == lines[skip + i]
                }
        }),
{
    let row = numbered(lines, skip, take)[i];
    let line = lines[skip + i];
    let number = (skip + i + 1) as nat;
    let digits = text::decimal(number);
    let column = aligned(number);
    lemma_column(number);
    text::decimals_mean_their_numbers(number);
    assert(row == column + seq!['\t'] + line);
    let tab = row.len() - line.len() - 1;
    assert(tab == column.len());
    assert forall|k: int| 0 <= k < tab implies #[trigger] row[k] == column[k] by {}
    assert(row.subrange(tab - digits.len(), tab) =~= column.skip(tab - digits.len()));
    assert(row.skip(tab + 1) =~= line);
    assert forall|k: int| 0 <= k < tab implies #[trigger] row[k] != '\t' by {
        assert(column[k] != '\t');
    }
    assert(row[tab] == '\t');
}

/// A range has a row for each line after the skipped ones, but no more than
/// are taken.
pub proof fn ranges_have_a_row_for_each_line(lines: Seq<Seq<char>>, skip: nat, take: nat)
    ensures
        skip >= lines.len() ==> numbered(lines, skip, take).len() == 0,
        skip + take <= lines.len() ==> numbered(lines, skip, take).len() == take,
        skip <= lines.len() <= skip + take ==> numbered(lines, skip, take).len() == lines.len()
            - skip,
{
}

} // verus!
