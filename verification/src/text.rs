//! Text operations on sequences of characters.
use vstd::prelude::*;

verus! {

pub open spec fn ascii(c: char) -> bool {
    (c as u32) < 128
}

pub open spec fn ascii_text(text: Seq<char>) -> bool {
    forall|i: int| 0 <= i < text.len() ==> ascii(#[trigger] text[i])
}

pub open spec fn ascii_digit(c: char) -> bool {
    '0' <= c <= '9'
}

pub open spec fn ascii_white(c: char) -> bool {
    c == ' ' || '\t' <= c <= '\r'
}

pub open spec fn ascii_alnum(c: char) -> bool {
    ascii_digit(c) || 'A' <= c <= 'Z' || 'a' <= c <= 'z'
}

pub open spec fn ascii_lower(c: char) -> char {
    if 'A' <= c <= 'Z' {
        (c as u32 + 32) as char
    } else {
        c
    }
}

/// Whether a character beyond ASCII is alphabetic or numeric, as
/// [`char::is_alphanumeric`] answers it.
pub uninterp spec fn unicode_alnum(c: char) -> bool;

/// The lower case of a text that is not all ASCII, as [`str::to_lowercase`] gives it.
pub uninterp spec fn unicode_lowercase(text: Seq<char>) -> Seq<char>;

/// Whether a character is white space: one of those with the property `White_Space` of Unicode.
pub open spec fn is_white(c: char) -> bool {
    ascii_white(c) || c == '\u{85}' || c == '\u{a0}' || c == '\u{1680}' || '\u{2000}' <= c
        <= '\u{200a}' || c == '\u{2028}' || c == '\u{2029}' || c == '\u{202f}' || c == '\u{205f}'
        || c == '\u{3000}'
}

/// Whether a character is a letter or a digit.
pub open spec fn is_alnum(c: char) -> bool {
    if ascii(c) {
        ascii_alnum(c)
    } else {
        unicode_alnum(c)
    }
}

/// The lower case of a text.
pub open spec fn lowercase(text: Seq<char>) -> Seq<char> {
    if ascii_text(text) {
        text.map_values(|c: char| ascii_lower(c))
    } else {
        unicode_lowercase(text)
    }
}

/// `char::is_whitespace` answers whether a character has the property `White_Space`, which the
/// Unicode Character Database gives to the characters of [`is_white`] and to no others.
pub assume_specification [char::is_whitespace] (c: char) -> (holds: bool)
    ensures
        holds == is_white(c),
;

/// `char::is_alphanumeric` is a function of the character. Of the ASCII characters
/// exactly the digits and the letters have the property.
pub assume_specification [char::is_alphanumeric] (c: char) -> (holds: bool)
    ensures
        holds == if ascii(c) { ascii_alnum(c) } else { unicode_alnum(c) },
;

/// `str::to_lowercase` is a function of the text. On a text of ASCII characters it
/// maps `A` to `Z` to `a` to `z` and keeps every other character.
pub assume_specification [str::to_lowercase] (text: &str) -> (lower: String)
    ensures
        lower@ == if ascii_text(text@) {
            text@.map_values(|c: char| ascii_lower(c))
        } else {
            unicode_lowercase(text@)
        },
;

/// `String::push` appends one character.
pub assume_specification [String::push] (text: &mut String, c: char)
    ensures
        final(text)@ == old(text)@.push(c),
;

/// The characters of a text.
pub fn chars_of(text: &str) -> (chars: Vec<char>)
    ensures
        chars@ == text@,
{
    let mut chars: Vec<char> = Vec::new();
    for c in it: text.chars()
        invariant
            chars@ == it.seq().take(it.index()),
            it.seq() == text@,
    {
        chars.push(c);
    }
    chars
}

/// Whether two texts are the same.
pub fn same_text(a: &str, b: &str) -> (same: bool)
    ensures
        same == (a@ == b@),
{
    a.to_owned() == b.to_owned()
}

/// A text with every backslash turned into a slash.
pub open spec fn slashed(text: Seq<char>) -> Seq<char> {
    text.map_values(|c: char| if c == '\\' { '/' } else { c })
}

/// Turns every backslash into a slash.
pub fn normalize_slashes(text: &str) -> (normal: String)
    ensures
        normal@ == slashed(text@),
{
    let mut normal = String::new();
    for c in it: text.chars()
        invariant
            normal@ == slashed(it.seq().take(it.index())),
            it.seq() == text@,
    {
        proof {
            let done = it.seq().take(it.index());
            assert(it.seq().take(it.index() + 1) == done.push(c));
            assert(slashed(done.push(c)) == slashed(done).push(if c == '\\' { '/' } else { c }));
        }
        if c == '\\' {
            normal.push('/');
        } else {
            normal.push(c);
        }
    }
    normal
}

/// A text with a backslash put before every double quote.
pub open spec fn quotes_escaped(text: Seq<char>) -> Seq<char>
    decreases text.len(),
{
    if text.len() == 0 {
        Seq::empty()
    } else {
        let rest = quotes_escaped(text.drop_last());
        if text.last() == '"' {
            rest.push('\\').push('"')
        } else {
            rest.push(text.last())
        }
    }
}

/// Puts a backslash before every double quote.
pub fn escape_quotes(text: &str) -> (escaped: String)
    ensures
        escaped@ == quotes_escaped(text@),
{
    let mut escaped = String::new();
    for c in it: text.chars()
        invariant
            escaped@ == quotes_escaped(it.seq().take(it.index())),
            it.seq() == text@,
    {
        proof {
            let done = it.seq().take(it.index());
            let next = it.seq().take(it.index() + 1);
            assert(next.drop_last() == done);
            assert(next.last() == c);
        }
        if c == '"' {
            escaped.push('\\');
        }
        escaped.push(c);
    }
    assert(text@.take(text@.len() as int) == text@);
    escaped
}

/// A text without the white space at its start.
pub open spec fn trimmed_start(text: Seq<char>) -> Seq<char>
    decreases text.len(),
{
    if text.len() > 0 && is_white(text.first()) {
        trimmed_start(text.drop_first())
    } else {
        text
    }
}

/// A text without the white space at its end.
pub open spec fn trimmed_end(text: Seq<char>) -> Seq<char>
    decreases text.len(),
{
    if text.len() > 0 && is_white(text.last()) {
        trimmed_end(text.drop_last())
    } else {
        text
    }
}

/// A text without the white space at its two ends.
pub open spec fn trimmed(text: Seq<char>) -> Seq<char> {
    trimmed_end(trimmed_start(text))
}

proof fn lemma_trimmed_start(text: Seq<char>)
    ensures
        trimmed_start(text).len() > 0 ==> !is_white(trimmed_start(text).first()),
    decreases text.len(),
{
    if text.len() > 0 && is_white(text.first()) {
        lemma_trimmed_start(text.drop_first());
    }
}

proof fn lemma_trimmed_end(text: Seq<char>)
    ensures
        trimmed_end(text).len() > 0 ==> trimmed_end(text).first() == text.first() && !is_white(
            trimmed_end(text).last(),
        ),
    decreases text.len(),
{
    if text.len() > 0 && is_white(text.last()) {
        lemma_trimmed_end(text.drop_last());
    }
}

/// A text that was trimmed has nothing left to trim.
pub proof fn lemma_trimmed_again(text: Seq<char>)
    ensures
        trimmed(trimmed(text)) == trimmed(text),
{
    lemma_trimmed_start(text);
    lemma_trimmed_end(trimmed_start(text));
}

/// Takes the white space away from the two ends of a text.
pub fn trim(text: &str) -> (result: String)
    ensures
        result@ == trimmed(text@),
{
    let chars = chars_of(text);
    let mut start: usize = 0;
    assert(chars@.skip(0) == chars@);
    while start < chars.len() && chars[start].is_whitespace()
        invariant
            start <= chars@.len(),
            trimmed_start(chars@) == trimmed_start(chars@.skip(start as int)),
        decreases chars@.len() - start,
    {
        proof {
            let rest = chars@.skip(start as int);
            assert(rest.first() == chars@[start as int]);
            assert(rest.drop_first() == chars@.skip(start + 1));
        }
        start = start + 1;
    }
    assert(start < chars@.len() ==> chars@.skip(start as int).first() == chars@[start as int]);
    assert(trimmed_start(chars@) == chars@.skip(start as int));
    let mut end: usize = chars.len();
    assert(chars@.subrange(start as int, end as int) == chars@.skip(start as int));
    while start < end && chars[end - 1].is_whitespace()
        invariant
            start <= end <= chars@.len(),
            trimmed_end(chars@.skip(start as int)) == trimmed_end(
                chars@.subrange(start as int, end as int),
            ),
        decreases end,
    {
        proof {
            let rest = chars@.subrange(start as int, end as int);
            assert(rest.last() == chars@[end - 1]);
            assert(rest.drop_last() == chars@.subrange(start as int, end - 1));
        }
        end = end - 1;
    }
    let ghost rest = chars@.subrange(start as int, end as int);
    assert(start < end ==> rest.last() == chars@[end - 1]);
    let mut result = String::new();
    let mut i: usize = start;
    while i < end
        invariant
            start <= i <= end <= chars@.len(),
            result@ == chars@.subrange(start as int, i as int),
        decreases end - i,
    {
        result.push(chars[i]);
        i = i + 1;
    }
    result
}

/// An optional text, as the contracts see it.
pub open spec fn text_view(text: Option<String>) -> Option<Seq<char>> {
    match text {
        Some(text) => Some(text@),
        None => None,
    }
}

/// A text without the white space at its ends, where more than that is in it.
pub open spec fn nonblank(text: Option<Seq<char>>) -> Option<Seq<char>> {
    match text {
        Some(text) => if trimmed(text).len() > 0 {
            Some(trimmed(text))
        } else {
            None
        },
        None => None,
    }
}

/// Takes the white space from the ends of a text, and the text away if it is blank.
pub fn trim_nonblank(text: Option<String>) -> (result: Option<String>)
    ensures
        text_view(result) == nonblank(text_view(text)),
{
    match text {
        Some(text) => {
            let inner = trim(text.as_str());
            if inner.as_str().is_empty() {
                None
            } else {
                Some(inner)
            }
        },
        None => None,
    }
}

/// Whether `part` stands in `text` from position `at` on.
pub open spec fn occurs_at(text: Seq<char>, part: Seq<char>, at: int) -> bool {
    0 <= at && at + part.len() <= text.len() && text.subrange(at, at + part.len()) == part
}

/// Whether `part` stands somewhere in `text`.
pub open spec fn occurs_in(text: Seq<char>, part: Seq<char>) -> bool {
    exists|at: int| occurs_at(text, part, at)
}

/// Whether `part` stands somewhere in `text`.
pub fn contains_text(text: &str, part: &str) -> (found: bool)
    ensures
        found == occurs_in(text@, part@),
{
    let text_chars = chars_of(text);
    let part_chars = chars_of(part);
    let text_len: usize = text_chars.len();
    let part_len: usize = part_chars.len();
    if part_len > text_len {
        return false;
    }
    for at in 0..text_len
        invariant
            text_chars@ == text@,
            part_chars@ == part@,
            part_len == part@.len(),
            text_len == text@.len(),
            forall|k: int| 0 <= k < at ==> !occurs_at(text@, part@, k),
    {
        if part_len <= text_len - at {
            let mut i: usize = 0;
            while i < part_len && text_chars[at + i] == part_chars[i]
                invariant
                    i <= part_len,
                    at + part_len <= text_len,
                    part_len == part_chars@.len(),
                    text_len == text_chars@.len(),
                    forall|k: int| 0 <= k < i ==> text_chars@[at + k] == part_chars@[k],
                    i < part_len ==> at + i < text_len,
                decreases part_len - i,
            {
                i = i + 1;
            }
            if i == part_len {
                assert(text@.subrange(at as int, at + part@.len()) == part@);
                assert(occurs_at(text@, part@, at as int));
                return true;
            }
            assert(!occurs_at(text@, part@, at as int)) by {
                assert(text@.subrange(at as int, at + part@.len())[i as int] == text@[at + i]);
            }
        }
    }
    assert(part_len == 0 ==> occurs_at(text@, part@, text_len as int)) by {
        if part_len == 0 {
            assert(text@.subrange(text_len as int, text_len + part@.len()) == part@);
        }
    }
    part_len == 0
}

/// The decimal digit of a number below ten.
pub open spec fn digit(n: nat) -> char {
    (48 + n) as char
}

/// A number in decimal digits.
pub open spec fn decimal(n: nat) -> Seq<char>
    decreases n,
{
    if n < 10 {
        seq![digit(n)]
    } else {
        decimal(n / 10).push(digit(n % 10))
    }
}

/// A number in decimal digits, with a minus sign before a negative one.
pub open spec fn signed_decimal(n: int) -> Seq<char> {
    if n < 0 {
        seq!['-'] + decimal((-n) as nat)
    } else {
        decimal(n as nat)
    }
}

/// A decimal is made of digits.
pub proof fn lemma_decimal_digits(n: nat)
    ensures
        decimal(n).len() > 0,
        forall|i: int| 0 <= i < decimal(n).len() ==> ascii_digit(#[trigger] decimal(n)[i]),
    decreases n,
{
    if n >= 10 {
        lemma_decimal_digits(n / 10);
    }
}

proof fn lemma_decimal_last(n: nat)
    ensures
        decimal(n).last() == digit(n % 10),
{
    if n < 10 {
        assert(n % 10 == n);
    }
}

/// Different numbers have different decimals.
pub proof fn lemma_decimal_injective(a: nat, b: nat)
    requires
        decimal(a) == decimal(b),
    ensures
        a == b,
    decreases a,
{
    lemma_decimal_digits(a / 10);
    lemma_decimal_digits(b / 10);
    lemma_decimal_last(a);
    lemma_decimal_last(b);
    if a >= 10 && b >= 10 {
        assert(decimal(a).drop_last() == decimal(a / 10));
        assert(decimal(b).drop_last() == decimal(b / 10));
        lemma_decimal_injective(a / 10, b / 10);
    } else if a >= 10 {
        assert(decimal(b).len() == 1);
    } else if b >= 10 {
        assert(decimal(a).len() == 1);
    }
}

/// A signed decimal is made of digits, with a minus sign in front of a negative number.
pub proof fn lemma_signed_decimal(n: int)
    ensures
        forall|i: int|
            0 <= i < signed_decimal(n).len() ==> #[trigger] signed_decimal(n)[i] == '-'
                || ascii_digit(signed_decimal(n)[i]),
        signed_decimal(n).len() > 0,
        (n < 0) == (signed_decimal(n)[0] == '-'),
{
    lemma_decimal_digits(if n < 0 { (-n) as nat } else { n as nat });
}

/// Different numbers have different signed decimals.
pub proof fn lemma_signed_decimal_injective(a: int, b: int)
    requires
        signed_decimal(a) == signed_decimal(b),
    ensures
        a == b,
{
    lemma_signed_decimal(a);
    lemma_signed_decimal(b);
    if a < 0 {
        assert(signed_decimal(a).drop_first() == decimal((-a) as nat));
        assert(signed_decimal(b).drop_first() == decimal((-b) as nat));
        lemma_decimal_injective((-a) as nat, (-b) as nat);
    } else {
        lemma_decimal_injective(a as nat, b as nat);
    }
}

/// Writes a number in decimal digits.
pub fn write_decimal(n: u64) -> (text: String)
    ensures
        text@ == decimal(n as nat),
    decreases n,
{
    let last = (48u8 + (n % 10) as u8) as char;
    let mut text = if n < 10 {
        String::new()
    } else {
        write_decimal(n / 10)
    };
    text.push(last);
    assert(n < 10 ==> text@ == seq![digit(n as nat)]);
    text
}

/// Writes a signed number in decimal digits.
pub fn write_signed(n: i64) -> (text: String)
    ensures
        text@ == signed_decimal(n as int),
{
    if n < 0 {
        let mut text = String::new();
        text.push('-');
        let size = (0i128 - n as i128) as u64;
        text.append(write_decimal(size).as_str());
        text
    } else {
        write_decimal(n as u64)
    }
}

/// The words of a text: its longest stretches without white space, in their order.
pub open spec fn words(text: Seq<char>) -> Seq<Seq<char>>
    decreases text.len(),
{
    if text.len() == 0 {
        Seq::empty()
    } else {
        let found = words(text.drop_last());
        if is_white(text.last()) {
            found
        } else if text.len() == 1 || is_white(text[text.len() - 2]) {
            found.push(seq![text.last()])
        } else {
            found.drop_last().push(found.last().push(text.last()))
        }
    }
}

/// The parts one after the other, with `glue` between each two.
pub open spec fn joined(parts: Seq<Seq<char>>, glue: Seq<char>) -> Seq<char>
    decreases parts.len(),
{
    if parts.len() == 0 {
        Seq::empty()
    } else {
        let before = joined(parts.drop_last(), glue);
        before + (if parts.len() > 1 { glue } else { Seq::empty() }) + parts.last()
    }
}

proof fn lemma_joined_push(parts: Seq<Seq<char>>, glue: Seq<char>, part: Seq<char>)
    ensures
        joined(parts.push(part), glue) == joined(parts, glue) + (if parts.len() > 0 {
            glue
        } else {
            Seq::empty()
        }) + part,
{
    assert(parts.push(part).drop_last() == parts);
}

proof fn lemma_joined_extend(parts: Seq<Seq<char>>, glue: Seq<char>, c: char)
    requires
        parts.len() > 0,
    ensures
        joined(parts.drop_last().push(parts.last().push(c)), glue) == joined(parts, glue).push(c),
{
    let before = parts.drop_last();
    lemma_joined_push(before, glue, parts.last().push(c));
    lemma_joined_push(before, glue, parts.last());
    assert(before.push(parts.last()) == parts);
}

/// Puts a hyphen between each two words of a text, in place of the white space.
pub fn hyphenate(text: &Vec<char>) -> (result: String)
    ensures
        result@ == joined(words(text@), seq!['-']),
{
    let mut result = String::new();
    let mut started: bool = false;
    let mut after_white: bool = true;
    for i in 0..text.len()
        invariant
            result@ == joined(words(text@.take(i as int)), seq!['-']),
            started == (words(text@.take(i as int)).len() > 0),
            after_white == (i == 0 || is_white(text@[i - 1])),
            !after_white ==> started,
    {
        let c = text[i];
        let ghost done = text@.take(i as int);
        let ghost next = text@.take(i + 1);
        proof {
            assert(next.drop_last() == done);
            assert(next.last() == c);
            if i > 0 {
                assert(next[next.len() - 2] == text@[i - 1]);
            }
        }
        if c.is_whitespace() {
            after_white = true;
        } else {
            proof {
                if after_white {
                    lemma_joined_push(words(done), seq!['-'], seq![c]);
                } else {
                    lemma_joined_extend(words(done), seq!['-'], c);
                }
            }
            if after_white && started {
                result.push('-');
            }
            result.push(c);
            started = true;
            after_white = false;
        }
        assert(result@ == joined(words(next), seq!['-']));
    }
    assert(text@.take(text@.len() as int) == text@);
    result
}

} // verus!
