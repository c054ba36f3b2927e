//! What the operations on texts are for.
use crate::text::{
    ascii, ascii_text, decimal, is_alnum, is_white, joined, lemma_decimal_digits, lowercase,
    nonblank, occurs_at, occurs_in, quotes_escaped, signed_decimal, slashed, trimmed,
    trimmed_end, trimmed_start, unicode_alnum, unicode_lowercase, words,
};
use vstd::prelude::*;

verus! {

// Characters

/// The white space is that of Unicode, and nothing else.
pub proof fn law_white_space(c: char)
    ensures
        is_white(c) <==> ('\t' <= c <= '\r' || c == ' ' || c == '\u{85}' || c == '\u{a0}' || c
            == '\u{1680}' || '\u{2000}' <= c <= '\u{200a}' || c == '\u{2028}' || c == '\u{2029}'
            || c == '\u{202f}' || c == '\u{205f}' || c == '\u{3000}'),
{
}

/// Of the ASCII characters, the letters and the digits count as such, and no others.
pub proof fn law_ascii_letters_and_digits(c: char)
    requires
        c <= '\u{7f}',
    ensures
        is_alnum(c) <==> ('0' <= c <= '9' || 'A' <= c <= 'Z' || 'a' <= c <= 'z'),
{
}

/// The lower case of a text of ASCII characters has its characters, place by place, but for the
/// capitals, which become the small letters at the same place of the alphabet.
pub proof fn law_ascii_lower_case(text: Seq<char>)
    requires
        forall|i: int| 0 <= i < text.len() ==> (#[trigger] text[i] as u32) < 128,
    ensures
        lowercase(text).len() == text.len(),
        forall|i: int|
            0 <= i < text.len() && 'A' <= #[trigger] text[i] <= 'Z' ==> lowercase(text)[i] as int
                == text[i] as int + 32,
        forall|i: int|
            0 <= i < text.len() && !('A' <= #[trigger] text[i] <= 'Z') ==> lowercase(text)[i]
                == text[i],
{
    assert(ascii_text(text));
}

/// Beyond ASCII, what counts as a letter or a digit, and what the lower case of a text is, is what
/// the standard library says.
pub proof fn law_characters_beyond_ascii(c: char, text: Seq<char>, at: int)
    requires
        c as u32 >= 128,
        0 <= at < text.len(),
        text[at] as u32 >= 128,
    ensures
        is_alnum(c) == unicode_alnum(c),
        lowercase(text) == unicode_lowercase(text),
{
    assert(!ascii(text[at]));
    assert(!ascii_text(text));
}

// Slashes and quotes

/// Turning backslashes into slashes keeps every other character, and every place.
pub proof fn law_slashes_stand_for_backslashes(text: Seq<char>)
    ensures
        slashed(text).len() == text.len(),
        forall|i: int|
            0 <= i < text.len() ==> #[trigger] slashed(text)[i] == (if text[i] == '\\' {
                '/'
            } else {
                text[i]
            }),
{
}

/// A text is escaped part by part.
pub proof fn law_parts_are_escaped(before: Seq<char>, after: Seq<char>)
    ensures
        quotes_escaped(before + after) == quotes_escaped(before) + quotes_escaped(after),
    decreases after.len(),
{
    if after.len() == 0 {
        assert(before + after == before);
    } else {
        law_parts_are_escaped(before, after.drop_last());
        assert((before + after).drop_last() == before + after.drop_last());
    }
}

/// A double quote gets a backslash before it; every other character stays as it is.
pub proof fn law_characters_are_escaped(c: char)
    ensures
        quotes_escaped(seq![c]) == (if c == '"' {
            seq!['\\', '"']
        } else {
            seq![c]
        }),
        quotes_escaped(Seq::empty()) == Seq::<char>::empty(),
{
    reveal_with_fuel(quotes_escaped, 2);
    assert(seq![c].drop_last() == Seq::<char>::empty());
}

// White space at the ends

proof fn lemma_start(text: Seq<char>) -> (start: int)
    ensures
        0 <= start <= text.len(),
        trimmed_start(text) == text.skip(start),
        forall|i: int| 0 <= i < start ==> is_white(#[trigger] text[i]),
        start < text.len() ==> !is_white(text[start]),
    decreases text.len(),
{
    if text.len() > 0 && is_white(text.first()) {
        let rest = text.drop_first();
        let start = lemma_start(rest);
        assert forall|i: int| 0 <= i < start + 1 implies is_white(#[trigger] text[i]) by {
            if i > 0 {
                assert(rest[i - 1] == text[i]);
            }
        }
        assert(rest.skip(start) == text.skip(start + 1));
        start + 1
    } else {
        assert(text.skip(0) == text);
        0
    }
}

proof fn lemma_end(text: Seq<char>) -> (end: int)
    ensures
        0 <= end <= text.len(),
        trimmed_end(text) == text.take(end),
        forall|i: int| end <= i < text.len() ==> is_white(#[trigger] text[i]),
        end > 0 ==> !is_white(text[end - 1]),
    decreases text.len(),
{
    if text.len() > 0 && is_white(text.last()) {
        let rest = text.drop_last();
        let end = lemma_end(rest);
        assert forall|i: int| end <= i < text.len() implies is_white(#[trigger] text[i]) by {
            if i < rest.len() {
                assert(rest[i] == text[i]);
            }
        }
        assert(rest.take(end) == text.take(end));
        end
    } else {
        assert(text.take(text.len() as int) == text);
        text.len() as int
    }
}

/// Trimming a text takes away white space before and behind its middle, and nothing of the
/// middle, which neither starts nor ends with white space.
pub proof fn law_trimming_leaves_the_middle(text: Seq<char>) -> (ends: (int, int))
    ensures
        0 <= ends.0 <= ends.1 <= text.len(),
        trimmed(text) == text.subrange(ends.0, ends.1),
        forall|i: int| 0 <= i < ends.0 ==> is_white(#[trigger] text[i]),
        forall|i: int| ends.1 <= i < text.len() ==> is_white(#[trigger] text[i]),
        ends.0 < ends.1 ==> !is_white(text[ends.0]) && !is_white(text[ends.1 - 1]),
{
    let start = lemma_start(text);
    let rest = text.skip(start);
    let end = lemma_end(rest);
    assert(rest.take(end) == text.subrange(start, start + end));
    assert forall|i: int| start + end <= i < text.len() implies is_white(#[trigger] text[i]) by {
        assert(rest[i - start] == text[i]);
    }
    if end > 0 {
        assert(rest[end - 1] == text[start + end - 1]);
    }
    (start, start + end)
}

/// A text counts as missing exactly where nothing but white space is in it; else it counts
/// without the white space at its ends.
pub proof fn law_blank_texts_are_missing(text: Seq<char>)
    ensures
        nonblank(Some(text)) is None <==> (forall|i: int|
            0 <= i < text.len() ==> is_white(#[trigger] text[i])),
        nonblank(Some(text)) matches Some(inner) ==> inner == trimmed(text),
        nonblank(None) is None,
{
    let (start, end) = law_trimming_leaves_the_middle(text);
    if start < end {
        assert(!is_white(text[start]));
    } else {
        assert forall|i: int| 0 <= i < text.len() implies is_white(#[trigger] text[i]) by {
            if i >= start {
                assert(end <= i);
            }
        }
    }
}

// Parts of texts

/// What stands between two other parts of a text is found in it.
pub proof fn law_parts_are_found(before: Seq<char>, part: Seq<char>, after: Seq<char>)
    ensures
        occurs_in(before + part + after, part),
{
    let text = before + part + after;
    assert(text.subrange(before.len() as int, (before.len() + part.len()) as int) == part);
    assert(occurs_at(text, part, before.len() as int));
}

/// What is found in a text stands between two other parts of it.
pub proof fn law_found_parts_are_there(text: Seq<char>, part: Seq<char>) -> (around: (
    Seq<char>,
    Seq<char>,
))
    requires
        occurs_in(text, part),
    ensures
        text == around.0 + part + around.1,
{
    let at = choose|at: int| occurs_at(text, part, at);
    let before = text.take(at);
    let after = text.skip(at + part.len());
    assert(occurs_at(text, part, at));
    assert(text == before + text.subrange(at, at + part.len()) + after);
    (before, after)
}

// Numbers

/// The number that some decimal digits stand for.
pub open spec fn number_of(digits: Seq<char>) -> int
    decreases digits.len(),
{
    if digits.len() == 0 {
        0
    } else {
        10 * number_of(digits.drop_last()) + (digits.last() as int - '0' as int)
    }
}

/// A number is written in digits that stand for it, with no zero too many in front.
pub proof fn law_decimals_stand_for_numbers(n: nat)
    ensures
        number_of(decimal(n)) == n,
        decimal(n).len() > 0,
        forall|i: int| 0 <= i < decimal(n).len() ==> '0' <= #[trigger] decimal(n)[i] <= '9',
        decimal(n).len() > 1 ==> decimal(n)[0] != '0',
    decreases n,
{
    lemma_decimal_digits(n);
    reveal_with_fuel(number_of, 2);
    if n < 10 {
        assert(decimal(n).drop_last() == Seq::<char>::empty());
    } else {
        law_decimals_stand_for_numbers(n / 10);
        let front = decimal(n / 10);
        assert(decimal(n).drop_last() == front);
        assert(decimal(n)[0] == front[0]);
        if front.len() == 1 {
            assert(front.drop_last() == Seq::<char>::empty());
            assert(number_of(front) == front[0] as int - '0' as int);
        }
    }
}

/// A negative number is written as a minus sign and the number without its sign, and any other
/// number as it is without a sign.
pub proof fn law_signs_of_numbers(n: int)
    ensures
        n < 0 ==> signed_decimal(n) == seq!['-'] + decimal((-n) as nat),
        n >= 0 ==> signed_decimal(n) == decimal(n as nat),
{
}

// Words

proof fn lemma_words_end(text: Seq<char>)
    ensures
        text.len() > 0 && !is_white(text.last()) ==> words(text).len() > 0,
{
}

/// White space parts the words: those before it come first, those behind it after them.
pub proof fn law_white_space_parts_words(before: Seq<char>, white: char, after: Seq<char>)
    requires
        is_white(white),
    ensures
        words(before + seq![white] + after) == words(before) + words(after),
    decreases after.len(),
{
    let text = before + seq![white] + after;
    if after.len() == 0 {
        assert(text.drop_last() == before);
        assert(words(before) + words(after) == words(before));
    } else {
        let rest = after.drop_last();
        law_white_space_parts_words(before, white, rest);
        assert(text.drop_last() == before + seq![white] + rest);
        assert(text.last() == after.last());
        if after.len() > 1 {
            assert(text[text.len() - 2] == after[after.len() - 2]);
            assert(after[after.len() - 2] == rest.last());
            lemma_words_end(rest);
        } else {
            assert(text[text.len() - 2] == white);
            assert(rest == Seq::<char>::empty());
        }
        let a = words(before);
        let b = words(rest);
        if !is_white(after.last()) && after.len() > 1 && !is_white(rest.last()) {
            assert((a + b).drop_last() == a + b.drop_last());
            assert((a + b).last() == b.last());
            assert(a + b.drop_last().push(b.last().push(after.last())) == (a
                + b.drop_last()).push(b.last().push(after.last())));
        } else if !is_white(after.last()) {
            assert(a + b.push(seq![after.last()]) == (a + b).push(seq![after.last()]));
        }
        assert(words(text) == words(before) + words(after));
    }
}

/// A text without white space is one word, and an empty one has none.
pub proof fn law_words_are_whole(word: Seq<char>)
    requires
        forall|i: int| 0 <= i < word.len() ==> !is_white(#[trigger] word[i]),
    ensures
        word.len() > 0 ==> words(word) == seq![word],
        words(Seq::empty()) == Seq::<Seq<char>>::empty(),
    decreases word.len(),
{
    if word.len() > 0 {
        let rest = word.drop_last();
        assert forall|i: int| 0 <= i < rest.len() implies !is_white(#[trigger] rest[i]) by {
            assert(rest[i] == word[i]);
        }
        law_words_are_whole(rest);
        assert(!is_white(word[word.len() - 1]));
        if word.len() > 1 {
            assert(!is_white(word[word.len() - 2]));
            assert(seq![rest].drop_last().push(rest.push(word.last())) == seq![word]) by {
                assert(rest.push(word.last()) == word);
            }
        } else {
            assert(rest == Seq::<char>::empty());
            assert(words(rest).push(seq![word.last()]) == seq![word]) by {
                assert(seq![word.last()] == word);
            }
        }
    }
}

/// Two lists of parts are joined like their joined parts, with the glue between them.
pub proof fn law_lists_are_joined(
    before: Seq<Seq<char>>,
    after: Seq<Seq<char>>,
    glue: Seq<char>,
)
    requires
        before.len() > 0,
        after.len() > 0,
    ensures
        joined(before + after, glue) == joined(before, glue) + glue + joined(after, glue),
    decreases after.len(),
{
    let whole = before + after;
    let rest = after.drop_last();
    assert(whole.drop_last() == before + rest);
    assert(whole.last() == after.last());
    if rest.len() > 0 {
        law_lists_are_joined(before, rest, glue);
        assert(joined(before, glue) + glue + joined(rest, glue) + glue + after.last() == joined(
            before,
            glue,
        ) + glue + (joined(rest, glue) + glue + after.last()));
    } else {
        assert(before + rest == before);
        reveal_with_fuel(joined, 2);
        assert(joined(after, glue) == after.last());
    }
}

/// A single part is joined to itself, and no part to nothing.
pub proof fn law_single_part_is_joined(part: Seq<char>, glue: Seq<char>)
    ensures
        joined(seq![part], glue) == part,
        joined(Seq::empty(), glue) == Seq::<char>::empty(),
{
    reveal_with_fuel(joined, 2);
    assert(seq![part].drop_last() == Seq::<Seq<char>>::empty());
    assert(joined(Seq::empty(), glue) + Seq::empty() + part == part);
}

} // verus!
