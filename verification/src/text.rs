//! Text primitives: everything the dashboard does to strings, stated over
//! sequences of characters.

use vstd::prelude::*;

verus! {

/// Appending one character, as `String::push` documents it: the text grows by
/// exactly that character at its end.
pub assume_specification[ std::string::String::push ](string: &mut std::string::String, ch: char)
    ensures
        final(string)@ == old(string)@.push(ch),
;

/// The text that a sequence of bytes reads as, bytes that are not UTF-8
/// replaced.
pub uninterp spec fn utf8_lossy(bytes: Seq<u8>) -> Seq<char>;

/// Reads bytes as text with `String::from_utf8_lossy`. The result depends on
/// the bytes alone; where they are valid UTF-8 it is their decoding. Where
/// replacement characters go otherwise is left unsaid.
#[verifier::external_body]
pub(crate) fn decode_lossy(bytes: &[u8]) -> (decoded: String)
    ensures
        decoded@ == utf8_lossy(bytes@),
        vstd::utf8::valid_utf8(bytes@) ==> decoded@ == vstd::utf8::decode_utf8(bytes@),
{
    String::from_utf8_lossy(bytes).into_owned()
}

/// The characters of a text, as a vector.
pub fn chars_of(text: &str) -> (chars: Vec<char>)
    ensures
        chars@ == text@,
{
    let mut chars: Vec<char> = Vec::new();
    for character in iter: text.chars()
        invariant
            chars@ == text@.take(iter.index()),
            iter.seq() == text@,
    {
        proof {
            assert(text@.take(iter.index() + 1) =~= text@.take(iter.index()).push(
                text@[iter.index()],
            ));
        }
        chars.push(character);
    }
    assert(text@.take(text@.len() as int) =~= text@);
    chars
}

/// The text made of the given characters.
pub fn string_of(chars: &[char]) -> (text: String)
    ensures
        text@ == chars@,
{
    let mut text = String::new();
    let mut index: usize = 0;
    while index < chars.len()
        invariant
            index <= chars@.len(),
            text@ == chars@.take(index as int),
        decreases chars@.len() - index,
    {
        proof {
            assert(chars@.take(index + 1) =~= chars@.take(index as int).push(chars@[index as int]));
        }
        text.push(chars[index]);
        index += 1;
    }
    assert(chars@.take(chars@.len() as int) =~= chars@);
    text
}

/// Whether two texts hold the same characters.
pub fn text_eq(left: &str, right: &str) -> (equal: bool)
    ensures
        equal == (left@ == right@),
{
    left.to_owned() == right.to_owned()
}

/// The part of a text from one character position up to another.
pub fn chars_between(chars: &Vec<char>, from: usize, to: usize) -> (part: Vec<char>)
    requires
        from <= to <= chars@.len(),
    ensures
        part@ == chars@.subrange(from as int, to as int),
{
    let mut part: Vec<char> = Vec::new();
    let mut index: usize = from;
    while index < to
        invariant
            from <= index <= to <= chars@.len(),
            part@ == chars@.subrange(from as int, index as int),
        decreases to - index,
    {
        proof {
            assert(chars@.subrange(from as int, index + 1) =~= chars@.subrange(
                from as int,
                index as int,
            ).push(chars@[index as int]));
        }
        part.push(chars[index]);
        index += 1;
    }
    part
}

/// The part of a text from one character position up to another, as a text.
pub fn text_between(chars: &Vec<char>, from: usize, to: usize) -> (text: String)
    requires
        from <= to <= chars@.len(),
    ensures
        text@ == chars@.subrange(from as int, to as int),
{
    let part = chars_between(chars, from, to);
    string_of(part.as_slice())
}

/// The concatenation of two texts.
pub fn joined(left: &str, right: &str) -> (text: String)
    ensures
        text@ == left@ + right@,
{
    let mut text = left.to_owned();
    text.append(right);
    text
}

// ---------------------------------------------------------------------------
// Trimming
// ---------------------------------------------------------------------------

/// A class of characters that a trim removes.
#[derive(Clone, Copy, PartialEq, Eq, Structural, Debug)]
pub enum CharClass {
    /// Carriage return and line feed.
    LineEnd,
    /// The forward slash.
    Slash,
    /// Unicode's `White_Space` property.
    WhiteSpace,
}

impl CharClass {
    /// Whether a character belongs to the class.
    pub open spec fn has(self, character: char) -> bool {
        match self {
            CharClass::LineEnd => character == '\r' || character == '\n',
            CharClass::Slash => character == '/',
            CharClass::WhiteSpace => is_white_space(character),
        }
    }

    /// Whether a character belongs to the class.
    pub fn includes(self, character: char) -> (included: bool)
        ensures
            included == self.has(character),
    {
        match self {
            CharClass::LineEnd => character == '\r' || character == '\n',
            CharClass::Slash => character == '/',
            CharClass::WhiteSpace => white_space(character),
        }
    }
}

/// Unicode's `White_Space` property.
pub open spec fn is_white_space(character: char) -> bool {
    ||| '\u{9}' <= character <= '\u{d}'
    ||| character == ' '
    ||| character == '\u{85}'
    ||| character == '\u{a0}'
    ||| character == '\u{1680}'
    ||| '\u{2000}' <= character <= '\u{200a}'
    ||| character == '\u{2028}'
    ||| character == '\u{2029}'
    ||| character == '\u{202f}'
    ||| character == '\u{205f}'
    ||| character == '\u{3000}'
}

/// Whether a character is Unicode white space.
pub fn white_space(character: char) -> (white: bool)
    ensures
        white == is_white_space(character),
{
    ('\u{9}' <= character && character <= '\u{d}') || character == ' ' || character == '\u{85}'
        || character == '\u{a0}' || character == '\u{1680}' || ('\u{2000}' <= character
        && character <= '\u{200a}') || character == '\u{2028}' || character == '\u{2029}'
        || character == '\u{202f}' || character == '\u{205f}' || character == '\u{3000}'
}

/// A text without the longest suffix made of characters of a class.
pub open spec fn trimmed_end(text: Seq<char>, class: CharClass) -> Seq<char>
    decreases text.len(),
{
    if text.len() > 0 && class.has(text.last()) {
        trimmed_end(text.drop_last(), class)
    } else {
        text
    }
}

/// A text without the longest prefix made of characters of a class.
pub open spec fn trimmed_start(text: Seq<char>, class: CharClass) -> Seq<char>
    decreases text.len(),
{
    if text.len() > 0 && class.has(text.first()) {
        trimmed_start(text.drop_first(), class)
    } else {
        text
    }
}

/// A text without white space at either end.
pub open spec fn trimmed(text: Seq<char>) -> Seq<char> {
    trimmed_end(trimmed_start(text, CharClass::WhiteSpace), CharClass::WhiteSpace)
}

/// Removes the longest suffix made of characters of a class.
pub fn trim_end(text: &str, class: CharClass) -> (result: String)
    ensures
        result@ == trimmed_end(text@, class),
{
    let chars = chars_of(text);
    let mut end: usize = chars.len();
    assert(chars@.take(end as int) =~= chars@);
    while end > 0 && class.includes(chars[end - 1])
        invariant
            end <= chars@.len(),
            trimmed_end(chars@.take(end as int), class) == trimmed_end(chars@, class),
        decreases end,
    {
        assert(chars@.take(end as int).drop_last() =~= chars@.take(end - 1));
        end -= 1;
    }
    assert(chars@.take(end as int) =~= chars@.subrange(0, end as int));
    text_between(&chars, 0, end)
}

/// Removes the longest prefix made of characters of a class.
pub fn trim_start(text: &str, class: CharClass) -> (result: String)
    ensures
        result@ == trimmed_start(text@, class),
{
    let chars = chars_of(text);
    let mut start: usize = 0;
    assert(chars@.skip(0) =~= chars@);
    while start < chars.len() && class.includes(chars[start])
        invariant
            start <= chars@.len(),
            trimmed_start(chars@.skip(start as int), class) == trimmed_start(chars@, class),
        decreases chars@.len() - start,
    {
        assert(chars@.skip(start as int).drop_first() =~= chars@.skip(start + 1));
        start += 1;
    }
    assert(chars@.skip(start as int) =~= chars@.subrange(start as int, chars@.len() as int));
    text_between(&chars, start, chars.len())
}

/// Removes white space at both ends.
pub fn trim(text: &str) -> (result: String)
    ensures
        result@ == trimmed(text@),
{
    let tail = trim_start(text, CharClass::WhiteSpace);
    trim_end(tail.as_str(), CharClass::WhiteSpace)
}

// ---------------------------------------------------------------------------
// Searching
// ---------------------------------------------------------------------------

/// Whether a pattern stands in a text at a position.
pub open spec fn occurs_at(text: Seq<char>, pattern: Seq<char>, position: int) -> bool {
    &&& 0 <= position
    &&& position + pattern.len() <= text.len()
    &&& text.subrange(position, position + pattern.len()) == pattern
}

/// Whether a pattern stands anywhere in a text.
pub open spec fn occurs(text: Seq<char>, pattern: Seq<char>) -> bool {
    exists|position: int| occurs_at(text, pattern, position)
}

/// The first position, not before `from`, at which a pattern stands in a text.
pub open spec fn first_occurrence(text: Seq<char>, pattern: Seq<char>, from: int) -> Option<int>
    decreases text.len() + 1 - from,
{
    if from < 0 || from + pattern.len() > text.len() {
        None
    } else if occurs_at(text, pattern, from) {
        Some(from)
    } else {
        first_occurrence(text, pattern, from + 1)
    }
}

/// A first occurrence is an occurrence, and none comes before it.
pub proof fn lemma_first_occurrence(text: Seq<char>, pattern: Seq<char>, from: int)
    requires
        0 <= from,
    ensures
        match first_occurrence(text, pattern, from) {
            Some(position) => {
                &&& from <= position
                &&& occurs_at(text, pattern, position)
                &&& forall|other: int|
                    from <= other < position ==> !occurs_at(text, pattern, other)
            },
            None => forall|other: int| from <= other ==> !occurs_at(text, pattern, other),
        },
    decreases text.len() + 1 - from,
{
    if from + pattern.len() <= text.len() && !occurs_at(text, pattern, from) {
        lemma_first_occurrence(text, pattern, from + 1);
    }
}

/// Whether a pattern stands in a text at a position.
pub fn stands_at(chars: &Vec<char>, pattern: &Vec<char>, position: usize) -> (found: bool)
    ensures
        found == occurs_at(chars@, pattern@, position as int),
{
    if pattern.len() > chars.len() || position > chars.len() - pattern.len() {
        return false;
    }
    let mut index: usize = 0;
    while index < pattern.len()
        invariant
            index <= pattern@.len(),
            position + pattern.len() <= chars.len(),
            forall|other: int| 0 <= other < index ==> chars@[position + other] == pattern@[other],
        decreases pattern@.len() - index,
    {
        if chars[position + index] != pattern[index] {
            proof {
                let part = chars@.subrange(position as int, position + pattern@.len());
                assert(part[index as int] != pattern@[index as int]);
            }
            return false;
        }
        index += 1;
    }
    assert(chars@.subrange(position as int, position + pattern@.len()) =~= pattern@);
    true
}

/// The first position at which a pattern stands in a text.
pub fn find(chars: &Vec<char>, pattern: &Vec<char>) -> (position: Option<usize>)
    ensures
        match position {
            Some(found) => first_occurrence(chars@, pattern@, 0) == Some(found as int),
            None => first_occurrence(chars@, pattern@, 0) is None,
        },
{
    let mut position: usize = 0;
    while pattern.len() <= chars.len() && position <= chars.len() - pattern.len()
        invariant
            position <= chars@.len() + 1,
            first_occurrence(chars@, pattern@, position as int) == first_occurrence(
                chars@,
                pattern@,
                0,
            ),
        decreases chars@.len() + 1 - position,
    {
        if stands_at(chars, pattern, position) {
            return Some(position);
        }
        if position == chars.len() - pattern.len() {
            assert(first_occurrence(chars@, pattern@, position + 1) is None);
            return None;
        }
        position += 1;
    }
    None
}

/// Whether a pattern stands anywhere in a text.
pub fn contains(text: &str, pattern: &str) -> (found: bool)
    ensures
        found == occurs(text@, pattern@),
{
    let chars = chars_of(text);
    let wanted = chars_of(pattern);
    proof {
        lemma_first_occurrence(text@, pattern@, 0);
    }
    match find(&chars, &wanted) {
        Some(position) => {
            assert(occurs_at(text@, pattern@, position as int));
            true
        },
        None => false,
    }
}

/// What follows a prefix of a text, if the text has that prefix.
pub open spec fn without_prefix(text: Seq<char>, prefix: Seq<char>) -> Option<Seq<char>> {
    if prefix.is_prefix_of(text) {
        Some(text.skip(prefix.len() as int))
    } else {
        None
    }
}

/// What follows a prefix of a text, if the text has that prefix.
pub fn strip_prefix(text: &str, prefix: &str) -> (rest: Option<String>)
    ensures
        match rest {
            Some(found) => without_prefix(text@, prefix@) == Some(found@),
            None => without_prefix(text@, prefix@) is None,
        },
{
    let chars = chars_of(text);
    let wanted = chars_of(prefix);
    if stands_at(&chars, &wanted, 0) {
        assert(prefix@.is_prefix_of(text@));
        assert(text@.skip(prefix@.len() as int) =~= text@.subrange(
            prefix@.len() as int,
            text@.len() as int,
        ));
        Some(text_between(&chars, wanted.len(), chars.len()))
    } else {
        proof {
            if prefix@.is_prefix_of(text@) {
                assert(text@.subrange(0, prefix@.len() as int) =~= prefix@);
            }
        }
        None
    }
}

/// What stands before and after the first separator of a text.
pub open spec fn split_first(text: Seq<char>, separator: Seq<char>) -> Option<
    (Seq<char>, Seq<char>),
> {
    match first_occurrence(text, separator, 0) {
        Some(position) => Some(
            (text.take(position), text.skip(position + separator.len())),
        ),
        None => None,
    }
}

/// What stands before and after the first separator of a text.
pub fn split_once(text: &str, separator: &str) -> (parts: Option<(String, String)>)
    ensures
        match parts {
            Some((before, after)) => split_first(text@, separator@) == Some((before@, after@)),
            None => split_first(text@, separator@) is None,
        },
{
    let chars = chars_of(text);
    let wanted = chars_of(separator);
    proof {
        lemma_first_occurrence(text@, separator@, 0);
    }
    match find(&chars, &wanted) {
        Some(position) => {
            assert(position + wanted.len() <= chars.len());
            assert(text@.take(position as int) =~= text@.subrange(0, position as int));
            assert(text@.skip(position + separator@.len()) =~= text@.subrange(
                position + separator@.len(),
                text@.len() as int,
            ));
            Some(
                (
                    text_between(&chars, 0, position),
                    text_between(&chars, position + wanted.len(), chars.len()),
                ),
            )
        },
        None => None,
    }
}

// ---------------------------------------------------------------------------
// Lines
// ---------------------------------------------------------------------------

/// A line without the carriage return at its end.
pub open spec fn without_carriage_return(line: Seq<char>) -> Seq<char> {
    if line.len() > 0 && line.last() == '\r' {
        line.drop_last()
    } else {
        line
    }
}

/// The first position, not before `from`, that holds a character.
pub open spec fn first_char(text: Seq<char>, character: char, from: int) -> Option<int>
    decreases text.len() - from,
{
    if from < 0 || from >= text.len() {
        None
    } else if text[from] == character {
        Some(from)
    } else {
        first_char(text, character, from + 1)
    }
}

/// The lines of a text from a position on. A line ends with a line feed, or
/// with a carriage return and a line feed; the last one may end with the text.
pub open spec fn lines_from(text: Seq<char>, from: int) -> Seq<Seq<char>>
    decreases text.len() - from,
    via lines_from_decreases
{
    if from < 0 || from >= text.len() {
        Seq::empty()
    } else {
        match first_char(text, '\n', from) {
            Some(end) => seq![without_carriage_return(text.subrange(from, end))] + lines_from(
                text,
                end + 1,
            ),
            None => seq![text.skip(from)],
        }
    }
}

#[via_fn]
proof fn lines_from_decreases(text: Seq<char>, from: int) {
    lemma_first_char(text, '\n', from);
}

/// The lines of a text.
pub open spec fn lines_of(text: Seq<char>) -> Seq<Seq<char>> {
    lines_from(text, 0)
}

/// A first position holds the character, and none before it does.
pub proof fn lemma_first_char(text: Seq<char>, character: char, from: int)
    ensures
        match first_char(text, character, from) {
            Some(position) => {
                &&& 0 <= from <= position < text.len()
                &&& text[position] == character
                &&& forall|other: int| from <= other < position ==> text[other] != character
            },
            None => 0 <= from ==> forall|other: int|
                from <= other < text.len() ==> text[other] != character,
        },
    decreases text.len() - from,
{
    if 0 <= from < text.len() && text[from] != character {
        lemma_first_char(text, character, from + 1);
    }
}

/// The first position, not before `from`, that holds a character.
pub fn find_char(chars: &Vec<char>, character: char, from: usize) -> (position: Option<usize>)
    ensures
        match position {
            Some(found) => first_char(chars@, character, from as int) == Some(found as int),
            None => first_char(chars@, character, from as int) is None,
        },
{
    let mut index: usize = from;
    while index < chars.len()
        invariant
            first_char(chars@, character, index as int) == first_char(
                chars@,
                character,
                from as int,
            ),
        decreases chars@.len() - index,
    {
        if chars[index] == character {
            return Some(index);
        }
        index += 1;
    }
    None
}

/// The texts that the strings of a sequence hold.
pub open spec fn texts(strings: Seq<String>) -> Seq<Seq<char>> {
    strings.map_values(|string: String| string@)
}

/// The texts that borrowed strings hold.
pub open spec fn borrowed_texts(strings: Seq<&str>) -> Seq<Seq<char>> {
    strings.map_values(|string: &str| string@)
}

/// Owned copies of texts.
pub fn owned(parts: Vec<&str>) -> (strings: Vec<String>)
    ensures
        texts(strings@) == borrowed_texts(parts@),
{
    let mut strings: Vec<String> = Vec::new();
    let mut index: usize = 0;
    while index < parts.len()
        invariant
            index <= parts@.len(),
            texts(strings@) == borrowed_texts(parts@).take(index as int),
        decreases parts@.len() - index,
    {
        let ghost before = strings@;
        let copy = parts[index].to_owned();
        strings.push(copy);
        proof {
            assert(texts(strings@) =~= texts(before).push(copy@));
            assert(borrowed_texts(parts@).take(index + 1) =~= borrowed_texts(parts@).take(
                index as int,
            ).push(copy@));
        }
        index += 1;
    }
    assert(borrowed_texts(parts@).take(parts@.len() as int) =~= borrowed_texts(parts@));
    strings
}

/// Appends an owned copy of a text to a list.
pub fn push_text(strings: &mut Vec<String>, item: &str)
    ensures
        texts(final(strings)@) == texts(old(strings)@).push(item@),
{
    let ghost before = strings@;
    let copy = item.to_owned();
    strings.push(copy);
    assert(texts(strings@) =~= texts(before).push(item@));
}

/// The lines of a text, as `str::lines` splits it.
pub fn lines(text: &str) -> (result: Vec<String>)
    ensures
        texts(result@) == lines_of(text@),
{
    let chars = chars_of(text);
    let mut result: Vec<String> = Vec::new();
    let mut from: usize = 0;
    assert(texts(result@) + lines_from(text@, 0) =~= lines_of(text@));
    while from < chars.len()
        invariant
            chars@ == text@,
            from <= chars@.len(),
            texts(result@) + lines_from(text@, from as int) == lines_of(text@),
        decreases chars@.len() - from,
    {
        proof {
            lemma_first_char(text@, '\n', from as int);
        }
        let ghost before = result@;
        match find_char(&chars, '\n', from) {
            Some(end) => {
                let content_end: usize = if end > from && chars[end - 1] == '\r' {
                    end - 1
                } else {
                    end
                };
                let line = text_between(&chars, from, content_end);
                proof {
                    let whole = text@.subrange(from as int, end as int);
                    assert(whole.len() > 0 ==> whole.last() == text@[end - 1]);
                    assert(line@ =~= without_carriage_return(whole));
                    assert(texts(before.push(line)) =~= texts(before).push(line@));
                    assert(texts(before) + (seq![line@] + lines_from(text@, end + 1))
                        =~= texts(before).push(line@) + lines_from(text@, end + 1));
                }
                result.push(line);
                from = end + 1;
            },
            None => {
                let line = text_between(&chars, from, chars.len());
                proof {
                    assert(line@ =~= text@.skip(from as int));
                    assert(texts(before.push(line)) =~= texts(before).push(line@));
                    assert(texts(before) + seq![line@] =~= texts(before).push(line@)
                        + lines_from(text@, text@.len() as int));
                }
                result.push(line);
                from = chars.len();
            },
        }
    }
    assert(texts(result@) + lines_from(text@, from as int) =~= texts(result@));
    result
}

// ---------------------------------------------------------------------------
// Letters and numbers
// ---------------------------------------------------------------------------

/// A character with an ASCII capital replaced by its small letter.
pub open spec fn lower_char(character: char) -> char {
    if 'A' <= character <= 'Z' {
        (character as u32 + 32) as char
    } else {
        character
    }
}

/// A text with each ASCII capital replaced by its small letter.
pub open spec fn lower(text: Seq<char>) -> Seq<char> {
    text.map_values(|character: char| lower_char(character))
}

/// Replaces an ASCII capital by its small letter.
pub fn to_lower_char(character: char) -> (result: char)
    ensures
        result == lower_char(character),
{
    if 'A' <= character && character <= 'Z' {
        ((character as u8) + 32) as char
    } else {
        character
    }
}

/// Replaces each ASCII capital by its small letter.
pub fn to_lower(text: &str) -> (result: String)
    ensures
        result@ == lower(text@),
{
    let chars = chars_of(text);
    let mut result = String::new();
    let mut index: usize = 0;
    while index < chars.len()
        invariant
            chars@ == text@,
            index <= chars@.len(),
            result@ == lower(text@).take(index as int),
        decreases chars@.len() - index,
    {
        proof {
            assert(lower(text@).take(index + 1) =~= lower(text@).take(index as int).push(
                lower_char(text@[index as int]),
            ));
        }
        result.push(to_lower_char(chars[index]));
        index += 1;
    }
    assert(lower(text@).take(text@.len() as int) =~= lower(text@));
    result
}

/// Whether two texts are equal but for the case of ASCII letters.
pub fn eq_ignoring_case(left: &str, right: &str) -> (equal: bool)
    ensures
        equal == (lower(left@) == lower(right@)),
{
    let left = to_lower(left);
    let right = to_lower(right);
    left == right
}

/// The decimal digit of a number below ten.
pub open spec fn digit(value: nat) -> char {
    (48 + value) as char
}

/// A natural number in decimal notation.
pub open spec fn decimal(value: nat) -> Seq<char>
    decreases value,
{
    if value < 10 {
        seq![digit(value)]
    } else {
        decimal(value / 10).push(digit(value % 10))
    }
}

/// An integer in decimal notation, with a sign where it is negative.
pub open spec fn signed_decimal(value: int) -> Seq<char> {
    if value < 0 {
        seq!['-'] + decimal((-value) as nat)
    } else {
        decimal(value as nat)
    }
}

/// Writes a number in decimal notation.
pub fn decimal_text(value: u64) -> (text: String)
    ensures
        text@ == decimal(value as nat),
    decreases value,
{
    let mut text = if value < 10 {
        String::new()
    } else {
        decimal_text(value / 10)
    };
    text.push((48 + (value % 10) as u8) as char);
    assert(value < 10 ==> text@ =~= seq![digit(value as nat)]);
    text
}

/// Writes an integer in decimal notation.
pub fn signed_decimal_text(value: i64) -> (text: String)
    ensures
        text@ == signed_decimal(value as int),
{
    if value < 0 {
        let magnitude: u64 = if value == i64::MIN {
            0x8000_0000_0000_0000
        } else {
            (-value) as u64
        };
        let digits = decimal_text(magnitude);
        let mut text = String::new();
        text.push('-');
        text.append(digits.as_str());
        assert(text@ =~= seq!['-'] + decimal((-value) as nat));
        text
    } else {
        decimal_text(value as u64)
    }
}

// ---------------------------------------------------------------------------
// Encoded size
// ---------------------------------------------------------------------------

/// How many bytes the UTF-8 encoding of a text takes.
pub open spec fn encoded_len(text: Seq<char>) -> nat {
    vstd::utf8::encode_utf8(text).len()
}

/// The longest prefix of a text whose UTF-8 encoding fits in a number of bytes.
pub open spec fn prefix_fitting(text: Seq<char>, max_bytes: nat) -> Seq<char>
    decreases text.len(),
{
    if text.len() == 0 || encoded_len(text) <= max_bytes {
        text
    } else {
        prefix_fitting(text.drop_last(), max_bytes)
    }
}

/// The encoding of a concatenation is the concatenation of the encodings.
pub proof fn lemma_encode_concat(left: Seq<char>, right: Seq<char>)
    ensures
        vstd::utf8::encode_utf8(left + right) == vstd::utf8::encode_utf8(left)
            + vstd::utf8::encode_utf8(right),
    decreases left.len(),
{
    if left.len() == 0 {
        assert(left + right =~= right);
        assert(vstd::utf8::encode_utf8(left) + vstd::utf8::encode_utf8(right)
            =~= vstd::utf8::encode_utf8(right));
    } else {
        assert((left + right).drop_first() =~= left.drop_first() + right);
        lemma_encode_concat(left.drop_first(), right);
        let head = vstd::utf8::encode_scalar(left[0] as u32);
        let rest = vstd::utf8::encode_utf8(left.drop_first());
        let tail = vstd::utf8::encode_utf8(right);
        assert(head + (rest + tail) =~= (head + rest) + tail);
    }
}

/// How many bytes the UTF-8 encoding of a character takes.
pub open spec fn char_len(character: char) -> nat {
    if (character as u32) < 0x80 {
        1
    } else if (character as u32) < 0x800 {
        2
    } else if (character as u32) < 0x10000 {
        3
    } else {
        4
    }
}

/// Appending a character adds the bytes of that character.
pub proof fn lemma_encoded_push(text: Seq<char>, character: char)
    ensures
        encoded_len(text.push(character)) == encoded_len(text) + char_len(character),
{
    lemma_encode_concat(text, seq![character]);
    assert(text.push(character) =~= text + seq![character]);
    assert(seq![character].drop_first() =~= Seq::<char>::empty());
    reveal_with_fuel(vstd::utf8::encode_utf8, 2);
}

/// A prefix takes no more bytes than the text.
pub proof fn lemma_encoded_prefix(text: Seq<char>, length: int)
    requires
        0 <= length <= text.len(),
    ensures
        encoded_len(text.take(length)) <= encoded_len(text),
{
    lemma_encode_concat(text.take(length), text.skip(length));
    assert(text.take(length) + text.skip(length) =~= text);
}

/// The prefix kept is the longest that fits: it fits, and one character more
/// would not.
pub proof fn lemma_prefix_fitting(text: Seq<char>, max_bytes: nat)
    ensures
        prefix_fitting(text, max_bytes).is_prefix_of(text),
        encoded_len(prefix_fitting(text, max_bytes)) <= max_bytes,
        forall|length: int|
            prefix_fitting(text, max_bytes).len() < length <= text.len() ==> encoded_len(
                #[trigger] text.take(length),
            ) > max_bytes,
    decreases text.len(),
{
    if text.len() > 0 && encoded_len(text) > max_bytes {
        let shorter = text.drop_last();
        lemma_prefix_fitting(shorter, max_bytes);
        assert forall|length: int|
            prefix_fitting(text, max_bytes).len() < length <= text.len() implies encoded_len(
            #[trigger] text.take(length),
        ) > max_bytes by {
            if length < text.len() {
                assert(shorter.take(length) =~= text.take(length));
            } else {
                assert(text.take(length) =~= text);
            }
        }
    }
}

/// A prefix that fits, with one character more that does not, is the longest.
proof fn lemma_longest_prefix(text: Seq<char>, max_bytes: nat, length: int)
    requires
        0 <= length <= text.len(),
        encoded_len(text.take(length)) <= max_bytes,
        length < text.len() ==> encoded_len(text.take(length + 1)) > max_bytes,
    ensures
        prefix_fitting(text, max_bytes) == text.take(length),
    decreases text.len(),
{
    if length == text.len() {
        assert(text.take(length) =~= text);
    } else {
        assert(text.take(length + 1) =~= text.take(length + 1).take(length + 1));
        lemma_encoded_prefix(text, length + 1);
        let shorter = text.drop_last();
        assert(shorter.take(length) =~= text.take(length));
        if length < shorter.len() {
            assert(shorter.take(length + 1) =~= text.take(length + 1));
        }
        lemma_longest_prefix(shorter, max_bytes, length);
    }
}

/// How many bytes the UTF-8 encoding of a character takes.
pub fn char_bytes(character: char) -> (bytes: usize)
    ensures
        bytes == char_len(character),
{
    let scalar: u32 = character as u32;
    if scalar < 0x80 {
        1
    } else if scalar < 0x800 {
        2
    } else if scalar < 0x10000 {
        3
    } else {
        4
    }
}

/// Cuts a text down to the longest prefix whose encoding fits in a number of
/// bytes.
pub fn fit_bytes(text: &str, max_bytes: usize) -> (result: String)
    ensures
        result@ == prefix_fitting(text@, max_bytes as nat),
{
    let chars = chars_of(text);
    let mut length: usize = 0;
    let mut used: usize = 0;
    assert(chars@.take(0) =~= Seq::<char>::empty());
    while length < chars.len()
        invariant
            chars@ == text@,
            length <= chars@.len(),
            used == encoded_len(text@.take(length as int)),
            used <= max_bytes,
        decreases chars@.len() - length,
    {
        let bytes = char_bytes(chars[length]);
        proof {
            lemma_encoded_push(text@.take(length as int), text@[length as int]);
            assert(text@.take(length + 1) =~= text@.take(length as int).push(
                text@[length as int],
            ));
        }
        if bytes > max_bytes - used {
            proof {
                lemma_longest_prefix(text@, max_bytes as nat, length as int);
                assert(text@.take(length as int) =~= text@.subrange(0, length as int));
            }
            return text_between(&chars, 0, length);
        }
        used += bytes;
        length += 1;
    }
    proof {
        lemma_longest_prefix(text@, max_bytes as nat, length as int);
        assert(text@.take(length as int) =~= text@);
    }
    text.to_owned()
}

// ---------------------------------------------------------------------------
// Laws
// ---------------------------------------------------------------------------

/// What trimming removes at the end belongs to the class, all of it, and what
/// is left does not end with a character of the class.
pub proof fn law_trimming_the_end_takes_the_class_alone(text: Seq<char>, class: CharClass)
    ensures
        ({
            let kept = trimmed_end(text, class);
            &&& kept.len() <= text.len()
            &&& kept == text.take(kept.len() as int)
            &&& kept.len() > 0 ==> !class.has(kept[kept.len() - 1])
            &&& forall|i: int| kept.len() <= i < text.len() ==> class.has(#[trigger] text[i])
        }),
    decreases text.len(),
{
    if text.len() > 0 && class.has(text.last()) {
        let shorter = text.drop_last();
        law_trimming_the_end_takes_the_class_alone(shorter, class);
        let kept = trimmed_end(shorter, class);
        assert(kept =~= text.take(kept.len() as int));
        assert forall|i: int| kept.len() <= i < text.len() implies class.has(#[trigger] text[i]) by {
            if i < shorter.len() {
                assert(shorter[i] == text[i]);
            }
        }
    } else {
        assert(text =~= text.take(text.len() as int));
    }
}

/// What trimming removes at the start belongs to the class, all of it, and what
/// is left does not start with a character of the class.
pub proof fn law_trimming_the_start_takes_the_class_alone(text: Seq<char>, class: CharClass)
    ensures
        ({
            let kept = trimmed_start(text, class);
            &&& kept.len() <= text.len()
            &&& kept == text.skip(text.len() - kept.len())
            &&& kept.len() > 0 ==> !class.has(kept[0])
            &&& forall|i: int| 0 <= i < text.len() - kept.len() ==> class.has(#[trigger] text[i])
        }),
    decreases text.len(),
{
    if text.len() > 0 && class.has(text.first()) {
        let shorter = text.drop_first();
        law_trimming_the_start_takes_the_class_alone(shorter, class);
        let kept = trimmed_start(shorter, class);
        assert(kept =~= text.skip(text.len() - kept.len()));
        assert forall|i: int| 0 <= i < text.len() - kept.len() implies class.has(
            #[trigger] text[i],
        ) by {
            if i > 0 {
                assert(shorter[i - 1] == text[i]);
            }
        }
    } else {
        assert(text =~= text.skip(0));
    }
}

/// Trimming white space gives what stands between it: whatever neither starts
/// nor ends with white space is left as it is.
pub proof fn law_trimming_leaves_what_stands_between(
    before: Seq<char>,
    content: Seq<char>,
    behind: Seq<char>,
)
    requires
        forall|i: int| 0 <= i < before.len() ==> is_white_space(#[trigger] before[i]),
        forall|i: int| 0 <= i < behind.len() ==> is_white_space(#[trigger] behind[i]),
        content.len() > 0,
        !is_white_space(content[0]),
        !is_white_space(content[content.len() - 1]),
    ensures
        trimmed(before + content + behind) == content,
{
    let class = CharClass::WhiteSpace;
    let whole = before + content + behind;
    let tail = trimmed_start(whole, class);
    law_trimming_the_start_takes_the_class_alone(whole, class);
    let gone = whole.len() - tail.len();
    if gone < before.len() {
        assert(tail[0] == whole[gone]);
        assert(whole[gone] == before[gone]);
    }
    if gone > before.len() {
        assert(whole[before.len() as int] == content[0]);
    }
    assert(tail =~= content + behind);
    law_trimming_the_end_takes_the_class_alone(tail, class);
    let kept = trimmed_end(tail, class);
    if kept.len() < content.len() {
        assert(tail[content.len() - 1] == content[content.len() - 1]);
    }
    if kept.len() > content.len() {
        assert(kept[kept.len() - 1] == tail[kept.len() - 1]);
        assert(tail[kept.len() - 1] == behind[kept.len() - 1 - content.len()]);
    }
    assert(kept =~= content);
}

/// A line ends with a carriage return or a line feed, a slash is a slash, and
/// white space is what Unicode says it is.
pub proof fn law_classes_hold_their_characters(character: char)
    ensures
        CharClass::LineEnd.has(character) <==> character as u32 == 13 || character as u32 == 10,
        CharClass::Slash.has(character) <==> character as u32 == 47,
        ({
            let code = character as u32;
            CharClass::WhiteSpace.has(character) <==> {
                ||| 9 <= code <= 13 || code == 32
                ||| code == 0x85 || code == 0xa0 || code == 0x1680
                ||| 0x2000 <= code <= 0x200a
                ||| code == 0x2028 || code == 0x2029 || code == 0x202f || code == 0x205f
                ||| code == 0x3000
            }
        }),
{
}

/// A pattern occurs in a text exactly if the text is the pattern with something
/// before it and something behind it.
pub proof fn law_what_stands_between_occurs(
    before: Seq<char>,
    pattern: Seq<char>,
    behind: Seq<char>,
    text: Seq<char>,
)
    ensures
        occurs(before + pattern + behind, pattern),
        occurs(text, pattern) ==> exists|first: Seq<char>, last: Seq<char>|
            #[trigger] (first + pattern + last) == text,
{
    let whole = before + pattern + behind;
    let place = before.len() as int;
    assert(whole.subrange(place, place + pattern.len()) =~= pattern);
    assert(occurs_at(whole, pattern, place));
    if occurs(text, pattern) {
        let position = choose|position: int| occurs_at(text, pattern, position);
        let first = text.take(position);
        let last = text.skip(position + pattern.len());
        assert(first + pattern + last =~= text);
    }
}

/// A text is cut at the first separator in it: the parts with the separator
/// between them are the text, and no separator begins earlier. Without a
/// separator it is not cut.
pub proof fn law_cutting_is_at_the_first_separator(text: Seq<char>, separator: Seq<char>)
    ensures
        match split_first(text, separator) {
            Some((before, behind)) => {
                &&& text == before + separator + behind
                &&& forall|position: int|
                    0 <= position < before.len() ==> #[trigger] text.subrange(
                        position,
                        position + separator.len(),
                    ) != separator
            },
            None => !occurs(text, separator),
        },
{
    lemma_first_occurrence(text, separator, 0);
    match first_occurrence(text, separator, 0) {
        Some(place) => {
            let before = text.take(place);
            let behind = text.skip(place + separator.len());
            assert(text =~= before + separator + behind);
            assert forall|position: int| 0 <= position < before.len() implies
                #[trigger] text.subrange(position, position + separator.len()) != separator by {
                assert(!occurs_at(text, separator, position));
            }
        },
        None => {},
    }
}

/// Taking a prefix off undoes putting it before a text.
pub proof fn law_prefixes_come_off(prefix: Seq<char>, rest: Seq<char>, text: Seq<char>)
    ensures
        without_prefix(prefix + rest, prefix) == Some(rest),
        match without_prefix(text, prefix) {
            Some(found) => text == prefix + found,
            None => text != prefix + rest,
        },
{
    assert((prefix + rest).subrange(0, prefix.len() as int) =~= prefix);
    assert(prefix.is_prefix_of(prefix + rest));
    assert((prefix + rest).skip(prefix.len() as int) =~= rest);
    if prefix.is_prefix_of(text) {
        assert(text =~= prefix + text.skip(prefix.len() as int));
    }
}

proof fn lemma_lines_shift(front: Seq<char>, text: Seq<char>, from: int)
    requires
        0 <= from,
    ensures
        lines_from(front + text, front.len() + from) == lines_from(text, from),
    decreases text.len() - from,
{
    let whole = front + text;
    let start = front.len() + from;
    if from < text.len() {
        lemma_first_char(text, '\n', from);
        lemma_first_char(whole, '\n', start);
        assert(forall|i: int| 0 <= i < text.len() ==> #[trigger] whole[front.len() + i] == text[i]);
        match first_char(text, '\n', from) {
            Some(end) => {
                assert(whole[front.len() + end] == '\n');
                let found = first_char(whole, '\n', start)->0;
                if found < front.len() + end {
                    assert(text[found - front.len()] == '\n');
                }
                assert(found == front.len() + end);
                lemma_lines_shift(front, text, end + 1);
                assert(whole.subrange(start, found) =~= text.subrange(from, end));
            },
            None => {
                if first_char(whole, '\n', start) is Some {
                    let found = first_char(whole, '\n', start)->0;
                    assert(text[found - front.len()] == '\n');
                }
                assert(whole.skip(start) =~= text.skip(from));
            },
        }
    }
}

/// Each line feed ends a line, with or without a carriage return before it, and
/// the lines behind it are those of the rest. What no line feed ends is a line
/// of its own, unless it is empty.
pub proof fn law_line_feeds_end_lines(line: Seq<char>, rest: Seq<char>)
    requires
        !line.contains('\n'),
    ensures
        line.len() == 0 || line[line.len() - 1] != '\r' ==> lines_of(
            line + seq!['\n'] + rest,
        ) == seq![line] + lines_of(rest),
        lines_of(line + seq!['\r', '\n'] + rest) == seq![line] + lines_of(rest),
        line.len() > 0 ==> lines_of(line) == seq![line],
        lines_of(Seq::empty()) == Seq::<Seq<char>>::empty(),
{
    let long = line + seq!['\r', '\n'];
    lemma_line_then_rest(line, rest);
    lemma_line_then_rest(line.push('\r'), rest);
    assert(line.push('\r') + seq!['\n'] + rest =~= long + rest);
    assert(line.push('\r').drop_last() =~= line);
    if line.len() > 0 {
        lemma_first_char(line, '\n', 0);
        if first_char(line, '\n', 0) is Some {
            let found = first_char(line, '\n', 0)->0;
            assert(line[found] == '\n');
        }
        assert(line.skip(0) =~= line);
    }
}

proof fn lemma_line_then_rest(line: Seq<char>, rest: Seq<char>)
    requires
        !line.contains('\n'),
    ensures
        lines_of(line + seq!['\n'] + rest) == seq![without_carriage_return(line)] + lines_of(rest),
{
    let front = line + seq!['\n'];
    let whole = front + rest;
    lemma_first_char(whole, '\n', 0);
    assert(whole[line.len() as int] == '\n');
    let found = first_char(whole, '\n', 0)->0;
    if found < line.len() {
        assert(whole[found] == line[found]);
    }
    assert(whole.subrange(0, line.len() as int) =~= line);
    lemma_lines_shift(front, rest, 0);
}

/// Small letters take the place of capitals, and nothing else changes.
pub proof fn law_lowering_changes_capitals_alone(text: Seq<char>, place: int)
    requires
        0 <= place < text.len(),
    ensures
        lower(text).len() == text.len(),
        'A' <= text[place] <= 'Z' ==> lower(text)[place] as u32 - 'a' as u32 == text[place] as u32
            - 'A' as u32,
        !('A' <= text[place] <= 'Z') ==> lower(text)[place] == text[place],
{
}

/// The number that a text of decimal digits stands for.
pub open spec fn number_in(digits: Seq<char>) -> int
    decreases digits.len(),
{
    if digits.len() == 0 {
        0
    } else {
        10 * number_in(digits.drop_last()) + (digits.last() as u32 - '0' as u32)
    }
}

/// A number in decimal notation can be read back: it is made of digits, the
/// first of which is zero only for zero, and stands for the number.
pub proof fn law_decimal_notation_reads_back(value: nat)
    ensures
        number_in(decimal(value)) == value,
        decimal(value).len() > 0,
        decimal(value)[0] == '0' ==> value == 0,
        forall|i: int|
            0 <= i < decimal(value).len() ==> '0' <= #[trigger] decimal(value)[i] <= '9',
    decreases value,
{
    if value < 10 {
        assert(decimal(value).drop_last() =~= Seq::<char>::empty());
        reveal_with_fuel(number_in, 2);
    } else {
        let front = decimal(value / 10);
        law_decimal_notation_reads_back(value / 10);
        assert(decimal(value).drop_last() =~= front);
        assert(decimal(value)[0] == front[0]);
        assert forall|i: int| 0 <= i < decimal(value).len() implies '0'
            <= #[trigger] decimal(value)[i] <= '9' by {
            if i < front.len() {
                assert(decimal(value)[i] == front[i]);
            }
        }
    }
}

/// A negative number has a sign before it and a number that is not negative has
/// none. What stands behind the sign is the number without it.
pub proof fn law_signs_tell_negative_numbers(value: int)
    ensures
        value < 0 ==> signed_decimal(value)[0] == '-' && number_in(
            signed_decimal(value).drop_first(),
        ) == -value,
        value >= 0 ==> signed_decimal(value)[0] != '-' && number_in(signed_decimal(value))
            == value,
{
    if value < 0 {
        law_decimal_notation_reads_back((-value) as nat);
        assert(signed_decimal(value).drop_first() =~= decimal((-value) as nat));
    } else {
        law_decimal_notation_reads_back(value as nat);
    }
}

} // verus!
