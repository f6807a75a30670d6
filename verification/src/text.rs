//! Text as sequences of characters: joining, decimal numbers, and parts of a
//! text.
use vstd::prelude::*;
use vstd::string::*;

verus! {

/// `String::push` puts the character behind the last one and leaves the rest.
pub assume_specification[ std::string::String::push ](s: &mut std::string::String, ch: char)
    ensures
        final(s)@ == old(s)@.push(ch),
;

/// The contents of a list of strings.
pub open spec fn texts(list: Seq<String>) -> Seq<Seq<char>> {
    list.map_values(|text: String| text@)
}

/// The parts one after another, the separator between each two of them.
pub open spec fn joined(parts: Seq<Seq<char>>, separator: Seq<char>) -> Seq<char>
    decreases parts.len(),
{
    if parts.len() == 0 {
        Seq::empty()
    } else {
        let before = parts.drop_last();
        if before.len() == 0 {
            parts.last()
        } else {
            joined(before, separator) + separator + parts.last()
        }
    }
}

/// Joining may as well begin with the first part.
pub proof fn lemma_joined_first(
    first: Seq<char>,
    rest: Seq<Seq<char>>,
    separator: Seq<char>,
)
    requires
        rest.len() > 0,
    ensures
        joined(seq![first] + rest, separator) == first + separator + joined(rest, separator),
    decreases rest.len(),
{
    let parts = seq![first] + rest;
    let before = rest.drop_last();
    if before.len() == 0 {
        assert(parts.drop_last() =~= seq![first]);
        assert(joined(seq![first], separator) == first);
        assert(joined(rest, separator) == rest.last());
    } else {
        assert(parts.drop_last() =~= seq![first] + before);
        lemma_joined_first(first, before, separator);
        assert(joined(parts, separator) =~= first + separator + joined(rest, separator));
    }
}

/// Joins the parts with the separator between them.
pub fn join(parts: &Vec<String>, separator: &str) -> (text: String)
    ensures
        text@ == joined(texts(parts@), separator@),
{
    let mut text = String::new();
    let mut i: usize = 0;
    while i < parts.len()
        invariant
            i <= parts@.len(),
            text@ == joined(texts(parts@).take(i as int), separator@),
        decreases parts@.len() - i,
    {
        if i > 0 {
            text.append(separator);
        }
        text.append(parts[i].as_str());
        proof {
            let next = texts(parts@).take(i + 1);
            assert(next.drop_last() =~= texts(parts@).take(i as int));
            assert(next.last() == parts@[i as int]@);
        }
        i = i + 1;
    }
    proof {
        assert(texts(parts@).take(parts@.len() as int) =~= texts(parts@));
    }
    text
}

/// The character of a decimal digit.
pub open spec fn digit(value: nat) -> char {
    (48 + value) as char
}

/// A number in decimal notation, without leading zeros.
pub open spec fn decimal(value: nat) -> Seq<char>
    decreases value,
{
    if value < 10 {
        seq![digit(value)]
    } else {
        decimal(value / 10).push(digit(value % 10))
    }
}

/// A whole number in decimal notation, with a minus sign if it is negative.
pub open spec fn signed_decimal(value: int) -> Seq<char> {
    if value < 0 {
        seq!['-'] + decimal((-value) as nat)
    } else {
        decimal(value as nat)
    }
}

/// Writes a number in decimal notation.
pub fn decimal_text(value: u128) -> (text: String)
    ensures
        text@ == decimal(value as nat),
    decreases value,
{
    let mut text = if value < 10 {
        String::new()
    } else {
        decimal_text(value / 10)
    };
    let last: u8 = (value % 10) as u8;
    text.push((48 + last) as char);
    text
}

/// Writes a whole number in decimal notation.
pub fn signed_decimal_text(value: i32) -> (text: String)
    ensures
        text@ == signed_decimal(value as int),
{
    if value < 0 {
        let mut text = String::new();
        text.push('-');
        text.append(decimal_text((-(value as i64)) as u128).as_str());
        text
    } else {
        decimal_text(value as u128)
    }
}

/// The characters of a text.
pub fn char_list(text: &str) -> (chars: Vec<char>)
    ensures
        chars@ == text@,
{
    let mut chars: Vec<char> = Vec::new();
    for c in it: text.chars()
        invariant
            it.seq() == text@,
            chars@ == text@.take(it.index() as int),
    {
        proof {
            assert(text@.take(it.index() + 1) =~= text@.take(it.index() as int).push(c));
        }
        chars.push(c);
    }
    proof {
        assert(text@.take(text@.len() as int) =~= text@);
    }
    chars
}

/// The text made of the characters from `start` up to, not including, `end`.
pub fn substring(chars: &Vec<char>, start: usize, end: usize) -> (text: String)
    requires
        start <= end <= chars@.len(),
    ensures
        text@ == chars@.subrange(start as int, end as int),
{
    let mut text = String::new();
    let mut i: usize = start;
    while i < end
        invariant
            start <= i <= end <= chars@.len(),
            text@ == chars@.subrange(start as int, i as int),
        decreases end - i,
    {
        text.push(chars[i]);
        proof {
            assert(chars@.subrange(start as int, i + 1) =~= chars@.subrange(
                start as int,
                i as int,
            ).push(chars@[i as int]));
        }
        i = i + 1;
    }
    text
}

/// Joining two lists of parts joins what they are joined to.
pub proof fn lemma_joined_concat(
    front: Seq<Seq<char>>,
    back: Seq<Seq<char>>,
    separator: Seq<char>,
)
    requires
        front.len() > 0,
        back.len() > 0,
    ensures
        joined(front + back, separator) == joined(front, separator) + separator + joined(
            back,
            separator,
        ),
    decreases back.len(),
{
    let parts = front + back;
    let before = back.drop_last();
    assert(parts.drop_last() =~= front + before);
    assert(parts.last() == back.last());
    if before.len() == 0 {
        assert(front + before =~= front);
    } else {
        lemma_joined_concat(front, before, separator);
        assert(joined(parts, separator) =~= joined(front, separator) + separator + joined(
            back,
            separator,
        ));
    }
}

/// One part is joined to itself, and no part to no text. With the law on two
/// lists of parts, this says all of joining.
pub proof fn one_part_is_joined_to_itself(part: Seq<char>, separator: Seq<char>)
    ensures
        joined(seq![part], separator) == part,
        joined(Seq::empty(), separator) == Seq::<char>::empty(),
{
    assert(seq![part].drop_last() =~= Seq::empty());
}

/// The contents of a list of strings are those of each string, in their order.
pub proof fn texts_are_those_of_the_strings(list: Seq<String>)
    ensures
        texts(list).len() == list.len(),
        forall|i: int| 0 <= i < list.len() ==> #[trigger] texts(list)[i] == list[i]@,
{
}

/// The number that is meant by a row of digits.
pub open spec fn number_meant(digits: Seq<char>) -> int
    decreases digits.len(),
{
    if digits.len() == 0 {
        0
    } else {
        10 * number_meant(digits.drop_last()) + (digits.last() as int - '0' as int)
    }
}

/// A row of digits as numbers are written: there is one, and the first is no
/// zero unless it is the only one.
pub open spec fn is_number(digits: Seq<char>) -> bool {
    &&& digits.len() > 0
    &&& forall|i: int| 0 <= i < digits.len() ==> '0' as int <= #[trigger] digits[i] as int <= '9' as int
    &&& digits[0] == '0' ==> digits.len() == 1
}

/// A number in decimal notation is the row of digits that means this number.
pub proof fn decimals_mean_their_numbers(value: nat)
    ensures
        is_number(decimal(value)),
        number_meant(decimal(value)) == value,
    decreases value,
{
    if value < 10 {
        let digits = decimal(value);
        assert(digits.drop_last() =~= Seq::empty());
        assert(number_meant(digits.drop_last()) == 0);
    } else {
        let before = decimal(value / 10);
        decimals_mean_their_numbers(value / 10);
        assert(decimal(value).drop_last() =~= before);
        assert(decimal(value)[0] == before[0]);
        if before[0] == '0' {
            assert(before =~= seq!['0']);
            assert(before.drop_last() =~= Seq::empty());
            assert(number_meant(before.drop_last()) == 0);
        }
    }
}

/// A negative number is written with a minus sign before the digits, and any
/// other without.
pub proof fn signs_are_written(value: int)
    ensures
        value < 0 ==> signed_decimal(value)[0] == '-' && is_number(signed_decimal(value).skip(1))
            && number_meant(signed_decimal(value).skip(1)) == -value,
        value >= 0 ==> is_number(signed_decimal(value)) && number_meant(signed_decimal(value))
            == value,
{
    if value < 0 {
        decimals_mean_their_numbers((-value) as nat);
        assert(signed_decimal(value).skip(1) =~= decimal((-value) as nat));
    } else {
        decimals_mean_their_numbers(value as nat);
    }
}

} // verus!
