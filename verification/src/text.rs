//! Text as sequences of characters: comparison, trimming, splitting, numbers.
use vstd::prelude::*;
use vstd::string::*;
use vstd::utf8::*;

verus! {

/// The characters of an optional string.
pub open spec fn opt_text(value: Option<String>) -> Option<Seq<char>> {
    match value {
        Some(text) => Some(text@),
        None => None,
    }
}

/// The characters of an optional string slice.
pub open spec fn opt_str(value: Option<&str>) -> Option<Seq<char>> {
    match value {
        Some(text) => Some(text@),
        None => None,
    }
}

/// The characters of each string of a list.
pub open spec fn texts(values: Seq<String>) -> Seq<Seq<char>> {
    values.map_values(|value: String| value@)
}

/// `String::push` appends one character.
pub assume_specification[ String::push ](text: &mut String, character: char)
    ensures
        final(text)@ == old(text)@.push(character),
;

/// Whether two strings hold the same characters.
pub fn same_text(left: &str, right: &str) -> (same: bool)
    ensures
        same == (left@ == right@),
{
    let left_bytes = left.as_bytes();
    let right_bytes = right.as_bytes();
    if left_bytes.len() != right_bytes.len() {
        return false;
    }
    let count: usize = left_bytes.len();
    let mut index: usize = 0;
    while index < count
        invariant
            index <= count,
            count == left_bytes@.len(),
            count == right_bytes@.len(),
            left_bytes@ == left.spec_bytes(),
            right_bytes@ == right.spec_bytes(),
            forall|k: int| 0 <= k < index ==> left_bytes@[k] == right_bytes@[k],
        decreases count - index,
    {
        if left_bytes[index] != right_bytes[index] {
            return false;
        }
        index = index + 1;
    }
    proof {
        assert(left_bytes@ =~= right_bytes@);
        encode_utf8_decode_utf8(left@);
        encode_utf8_decode_utf8(right@);
    }
    true
}

/// Whether an optional string is present and holds the characters of `right`.
pub fn is_text(left: &Option<String>, right: &str) -> (same: bool)
    ensures
        same == (opt_text(*left) == Some(right@)),
{
    match left {
        Some(text) => same_text(text.as_str(), right),
        None => false,
    }
}

/// The characters of a string as a vector.
pub fn chars_of(value: &str) -> (chars: Vec<char>)
    ensures
        chars@ == value@,
{
    let mut chars: Vec<char> = Vec::new();
    for character in it: value.chars()
        invariant
            chars@.len() == it.index(),
            it.seq() == value@,
            chars@ == value@.take(it.index()),
    {
        chars.push(character);
        assert(value@.take(it.index() + 1) =~= value@.take(it.index()).push(value@[it.index()]));
    }
    assert(value@.take(value@.len() as int) =~= value@);
    chars
}

/// The string made of the given characters.
pub fn text_of(chars: &[char]) -> (value: String)
    ensures
        value@ == chars@,
{
    let mut value = String::new();
    let count: usize = chars.len();
    let mut index: usize = 0;
    while index < count
        invariant
            index <= count,
            count == chars@.len(),
            value@ == chars@.take(index as int),
        decreases count - index,
    {
        value.push(chars[index]);
        assert(chars@.take(index + 1) =~= chars@.take(index as int).push(chars@[index as int]));
        index = index + 1;
    }
    assert(chars@.take(count as int) =~= chars@);
    value
}

/// The characters of the Unicode property White_Space.
pub open spec fn white_space(character: char) -> bool {
    ||| '\u{9}' <= character <= '\u{d}'
    ||| character == '\u{20}'
    ||| character == '\u{85}'
    ||| character == '\u{a0}'
    ||| character == '\u{1680}'
    ||| '\u{2000}' <= character <= '\u{200a}'
    ||| character == '\u{2028}'
    ||| character == '\u{2029}'
    ||| character == '\u{202f}'
    ||| character == '\u{205f}'
    ||| character == '\u{3000}'
}

/// Whether a character is white space.
pub fn is_white_space(character: char) -> (white: bool)
    ensures
        white == white_space(character),
{
    ('\u{9}' <= character && character <= '\u{d}') || character == '\u{20}' || character
        == '\u{85}' || character == '\u{a0}' || character == '\u{1680}' || ('\u{2000}'
        <= character && character <= '\u{200a}') || character == '\u{2028}' || character
        == '\u{2029}' || character == '\u{202f}' || character == '\u{205f}' || character
        == '\u{3000}'
}

/// A text without its leading white space.
pub open spec fn trim_start(value: Seq<char>) -> Seq<char>
    decreases value.len(),
{
    if value.len() > 0 && white_space(value[0]) {
        trim_start(value.skip(1))
    } else {
        value
    }
}

/// A text without its trailing white space.
pub open spec fn trim_end(value: Seq<char>) -> Seq<char>
    decreases value.len(),
{
    if value.len() > 0 && white_space(value.last()) {
        trim_end(value.drop_last())
    } else {
        value
    }
}

/// A text without leading and trailing white space.
pub open spec fn trimmed(value: Seq<char>) -> Seq<char> {
    trim_end(trim_start(value))
}

/// Removes leading and trailing white space.
pub fn trim(value: &str) -> (result: &str)
    ensures
        result@ == trimmed(value@),
{
    let chars = chars_of(value);
    let count: usize = chars.len();
    let mut start: usize = 0;
    assert(value@.skip(0) =~= value@);
    while start < count && is_white_space(chars[start])
        invariant
            start <= count,
            count == chars@.len(),
            chars@ == value@,
            trim_start(value@) == trim_start(value@.skip(start as int)),
        decreases count - start,
    {
        assert(value@.skip(start as int).skip(1) =~= value@.skip(start + 1));
        start = start + 1;
    }
    assert(trim_start(value@) == value@.skip(start as int));
    let mut end: usize = count;
    assert(value@.subrange(start as int, count as int) =~= value@.skip(start as int));
    while start < end && is_white_space(chars[end - 1])
        invariant
            start <= end <= count,
            count == chars@.len(),
            chars@ == value@,
            trimmed(value@) == trim_end(value@.subrange(start as int, end as int)),
        decreases end,
    {
        assert(value@.subrange(start as int, end as int).drop_last() =~= value@.subrange(
            start as int,
            end - 1,
        ));
        end = end - 1;
    }
    value.substring_char(start, end)
}

/// Whether a text holds nothing but white space.
pub fn is_blank(value: &str) -> (blank: bool)
    ensures
        blank == (trimmed(value@).len() == 0),
{
    trim(value).is_empty()
}

/// The position of the first occurrence of a character, or the length.
pub open spec fn first_position(value: Seq<char>, wanted: char) -> int
    decreases value.len(),
{
    if value.len() == 0 || value[0] == wanted {
        0
    } else {
        1 + first_position(value.skip(1), wanted)
    }
}

/// What `first_position` finds: nothing equal before it, and the character itself there.
pub proof fn lemma_first_position(value: Seq<char>, wanted: char)
    ensures
        0 <= first_position(value, wanted) <= value.len(),
        forall|k: int|
            0 <= k < first_position(value, wanted) ==> value[k] != wanted,
        first_position(value, wanted) < value.len() ==> value[first_position(value, wanted)]
            == wanted,
    decreases value.len(),
{
    if value.len() == 0 || value[0] == wanted {
    } else {
        let rest = value.skip(1);
        lemma_first_position(rest, wanted);
        assert forall|k: int| 0 <= k < first_position(value, wanted) implies value[k] != wanted by {
            if k > 0 {
                assert(rest[k - 1] == value[k]);
            }
        }
    }
}

/// A position with these properties is the one that `first_position` finds.
pub proof fn lemma_is_first_position(value: Seq<char>, wanted: char, position: int)
    requires
        0 <= position <= value.len(),
        forall|k: int| 0 <= k < position ==> value[k] != wanted,
        position < value.len() ==> value[position] == wanted,
    ensures
        first_position(value, wanted) == position,
{
    lemma_first_position(value, wanted);
}

/// The pieces between the occurrences of a separator: always at least one.
pub open spec fn split(value: Seq<char>, separator: char) -> Seq<Seq<char>>
    decreases value.len(),
    via split_decreases
{
    let position = first_position(value, separator);
    if position >= value.len() {
        seq![value]
    } else {
        seq![value.take(position)] + split(value.skip(position + 1), separator)
    }
}

#[via_fn]
proof fn split_decreases(value: Seq<char>, separator: char) {
    lemma_first_position(value, separator);
}

/// Splits a text at each occurrence of a separator.
pub fn split_text(value: &str, separator: char) -> (pieces: Vec<String>)
    ensures
        texts(pieces@) == split(value@, separator),
{
    let chars = chars_of(value);
    let count: usize = chars.len();
    let mut pieces: Vec<String> = Vec::new();
    let mut start: usize = 0;
    let mut index: usize = 0;
    assert(value@.skip(0) =~= value@);
    assert(texts(pieces@) + split(value@, separator) =~= split(value@, separator));
    while index < count
        invariant
            start <= index <= count,
            count == chars@.len(),
            chars@ == value@,
            forall|k: int| start <= k < index ==> value@[k] != separator,
            split(value@, separator) == texts(pieces@) + split(
                value@.skip(start as int),
                separator,
            ),
        decreases count - index,
    {
        if chars[index] == separator {
            let ghost before = texts(pieces@);
            let ghost rest = value@.skip(start as int);
            let piece = value.substring_char(start, index).to_owned();
            pieces.push(piece);
            proof {
                lemma_is_first_position(rest, separator, index - start);
                assert(rest.take(index - start) =~= value@.subrange(start as int, index as int));
                assert(rest.skip(index - start + 1) =~= value@.skip(index + 1));
                assert(texts(pieces@) =~= before.push(piece@));
                assert(before + (seq![piece@] + split(value@.skip(index + 1), separator))
                    =~= before.push(piece@) + split(value@.skip(index + 1), separator));
            }
            start = index + 1;
        }
        index = index + 1;
    }
    let ghost before = texts(pieces@);
    let ghost rest = value@.skip(start as int);
    let piece = value.substring_char(start, count).to_owned();
    pieces.push(piece);
    proof {
        lemma_is_first_position(rest, separator, count - start);
        assert(piece@ =~= rest);
        assert(texts(pieces@) =~= before + seq![rest]);
    }
    pieces
}

/// A line without the carriage return that ends it.
pub open spec fn strip_return(line: Seq<char>) -> Seq<char> {
    if line.len() > 0 && line.last() == '\r' {
        line.drop_last()
    } else {
        line
    }
}

/// The lines of a text: each ended by a line feed, or by a carriage return and a line feed; a
/// last line that nothing ends counts where it is not empty.
pub open spec fn lines(value: Seq<char>) -> Seq<Seq<char>>
    decreases value.len(),
    via lines_decreases
{
    let position = first_position(value, '\n');
    if value.len() == 0 {
        Seq::empty()
    } else if position >= value.len() {
        seq![value]
    } else {
        seq![strip_return(value.take(position))] + lines(value.skip(position + 1))
    }
}

#[via_fn]
proof fn lines_decreases(value: Seq<char>) {
    lemma_first_position(value, '\n');
}

/// Splits a text into its lines.
pub fn lines_of(value: &str) -> (result: Vec<String>)
    ensures
        texts(result@) == lines(value@),
{
    let chars = chars_of(value);
    let count: usize = chars.len();
    let mut result: Vec<String> = Vec::new();
    let mut start: usize = 0;
    let mut index: usize = 0;
    assert(value@.skip(0) =~= value@);
    assert(texts(result@) + lines(value@) =~= lines(value@));
    while index < count
        invariant
            start <= index <= count,
            count == chars@.len(),
            chars@ == value@,
            forall|k: int| start <= k < index ==> value@[k] != '\n',
            lines(value@) == texts(result@) + lines(value@.skip(start as int)),
        decreases count - index,
    {
        if chars[index] == '\n' {
            let ghost before = texts(result@);
            let ghost rest = value@.skip(start as int);
            let end: usize = if start < index && chars[index - 1] == '\r' {
                index - 1
            } else {
                index
            };
            let line = value.substring_char(start, end).to_owned();
            result.push(line);
            proof {
                lemma_is_first_position(rest, '\n', index - start);
                assert(rest.take(index - start) =~= value@.subrange(start as int, index as int));
                assert(strip_return(rest.take(index - start)) =~= line@);
                assert(rest.skip(index - start + 1) =~= value@.skip(index + 1));
                assert(texts(result@) =~= before.push(line@));
                assert(before + (seq![line@] + lines(value@.skip(index + 1))) =~= before.push(
                    line@,
                ) + lines(value@.skip(index + 1)));
            }
            start = index + 1;
        }
        index = index + 1;
    }
    let ghost before = texts(result@);
    let ghost rest = value@.skip(start as int);
    if start < count {
        let line = value.substring_char(start, count).to_owned();
        result.push(line);
        proof {
            lemma_is_first_position(rest, '\n', count - start);
            assert(line@ =~= rest);
            assert(texts(result@) =~= before + seq![rest]);
        }
    } else {
        assert(before + lines(rest) =~= before);
    }
    result
}

/// The first line of a text, where it has one.
pub open spec fn first_line_of(value: Seq<char>) -> Option<Seq<char>> {
    if lines(value).len() > 0 {
        Some(lines(value)[0])
    } else {
        None
    }
}

/// Finds the first line of a text.
pub fn leading_line(value: &str) -> (line: Option<&str>)
    ensures
        opt_str(line) == first_line_of(value@),
{
    let chars = chars_of(value);
    let count: usize = chars.len();
    if count == 0 {
        return None;
    }
    let mut index: usize = 0;
    while index < count && chars[index] != '\n'
        invariant
            index <= count,
            count == chars@.len(),
            chars@ == value@,
            forall|k: int| 0 <= k < index ==> value@[k] != '\n',
        decreases count - index,
    {
        index = index + 1;
    }
    proof {
        lemma_is_first_position(value@, '\n', index as int);
        assert(value@.take(index as int) =~= value@.subrange(0, index as int));
        assert(value@.subrange(0, count as int) =~= value@);
        if index > 0 {
            assert(value@.subrange(0, index as int).drop_last() =~= value@.subrange(0, index - 1));
        }
    }
    if index < count && index > 0 && chars[index - 1] == '\r' {
        Some(value.substring_char(0, index - 1))
    } else {
        Some(value.substring_char(0, index))
    }
}

/// Whether `needle` occurs in `value`.
pub open spec fn contains(value: Seq<char>, needle: Seq<char>) -> bool {
    exists|at: int| occurs_at(value, needle, at)
}

/// Whether `needle` occurs in `value` at the position `at`.
pub open spec fn occurs_at(value: Seq<char>, needle: Seq<char>, at: int) -> bool {
    0 <= at && at + needle.len() <= value.len() && value.subrange(at, at + needle.len()) == needle
}

/// Whether a text occurs in another.
pub fn contains_text(value: &str, needle: &str) -> (found: bool)
    ensures
        found == contains(value@, needle@),
{
    let chars = chars_of(value);
    let wanted = chars_of(needle);
    let count: usize = chars.len();
    if wanted.len() > count {
        return false;
    }
    let last: usize = count - wanted.len();
    let mut at: usize = 0;
    loop
        invariant
            at <= last,
            chars@ == value@,
            wanted@ == needle@,
            count == value@.len(),
            last == value@.len() - needle@.len(),
            forall|k: int| 0 <= k < at ==> !occurs_at(value@, needle@, k),
        decreases last - at,
    {
        let mut matched: usize = 0;
        while matched < wanted.len() && chars[at + matched] == wanted[matched]
            invariant
                at <= last,
                matched <= wanted@.len(),
                chars@ == value@,
                wanted@ == needle@,
                count == value@.len(),
                last == value@.len() - needle@.len(),
                forall|k: int| 0 <= k < matched ==> value@[at + k] == needle@[k],
            decreases wanted@.len() - matched,
        {
            matched = matched + 1;
        }
        if matched == wanted.len() {
            assert(value@.subrange(at as int, at + needle@.len()) =~= needle@);
            assert(occurs_at(value@, needle@, at as int));
            return true;
        }
        assert(!occurs_at(value@, needle@, at as int)) by {
            assert(value@.subrange(at as int, at + needle@.len())[matched as int] == value@[at
                + matched]);
        }
        if at == last {
            return false;
        }
        at = at + 1;
    }
}

/// Whether a text begins with another.
pub open spec fn begins_with(value: Seq<char>, prefix: Seq<char>) -> bool {
    prefix.len() <= value.len() && value.take(prefix.len() as int) == prefix
}

/// Tests whether a text begins with another.
pub fn starts_with(value: &str, prefix: &str) -> (found: bool)
    ensures
        found == begins_with(value@, prefix@),
{
    let count: usize = prefix.unicode_len();
    if count > value.unicode_len() {
        return false;
    }
    assert(value@.take(count as int) =~= value@.subrange(0, count as int));
    same_text(value.substring_char(0, count), prefix)
}

/// The order of texts: by the code point at the first place where they differ, a prefix first.
pub open spec fn text_before(left: Seq<char>, right: Seq<char>) -> bool
    decreases left.len(),
{
    if right.len() == 0 {
        false
    } else if left.len() == 0 {
        true
    } else if left[0] != right[0] {
        left[0] < right[0]
    } else {
        text_before(left.skip(1), right.skip(1))
    }
}

/// Whether `left` stands before `right` in the order of texts.
pub fn is_before(left: &str, right: &str) -> (before: bool)
    ensures
        before == text_before(left@, right@),
{
    let first = chars_of(left);
    let second = chars_of(right);
    let mut index: usize = 0;
    assert(left@.skip(0) =~= left@);
    assert(right@.skip(0) =~= right@);
    while index < first.len() && index < second.len() && first[index] == second[index]
        invariant
            first@ == left@,
            second@ == right@,
            index <= first@.len(),
            index <= second@.len(),
            text_before(left@, right@) == text_before(
                left@.skip(index as int),
                right@.skip(index as int),
            ),
        decreases first@.len() - index,
    {
        assert(left@.skip(index as int).skip(1) =~= left@.skip(index + 1));
        assert(right@.skip(index as int).skip(1) =~= right@.skip(index + 1));
        index = index + 1;
    }
    if index >= second.len() {
        false
    } else if index >= first.len() {
        true
    } else {
        first[index] < second[index]
    }
}

/// No text stands before itself.
pub proof fn lemma_text_before_irreflexive(text: Seq<char>)
    ensures
        !text_before(text, text),
    decreases text.len(),
{
    if text.len() > 0 {
        lemma_text_before_irreflexive(text.skip(1));
    }
}

/// The order of texts is transitive, and so is not standing before.
pub proof fn lemma_text_before_transitive(a: Seq<char>, b: Seq<char>, c: Seq<char>)
    ensures
        text_before(a, b) && text_before(b, c) ==> text_before(a, c),
        !text_before(a, b) && !text_before(b, c) ==> !text_before(a, c),
    decreases a.len(),
{
    if a.len() > 0 && b.len() > 0 && c.len() > 0 {
        lemma_text_before_transitive(a.skip(1), b.skip(1), c.skip(1));
    }
}

/// Of two texts, the one stands before the other unless they are the same.
pub proof fn lemma_text_before_total(a: Seq<char>, b: Seq<char>)
    ensures
        text_before(a, b) || text_before(b, a) || a == b,
    decreases a.len(),
{
    if a.len() > 0 && b.len() > 0 {
        lemma_text_before_total(a.skip(1), b.skip(1));
        if a[0] == b[0] && a.skip(1) == b.skip(1) {
            assert(a =~= seq![a[0]] + a.skip(1));
            assert(b =~= seq![b[0]] + b.skip(1));
        }
    } else if a.len() == 0 && b.len() == 0 {
        assert(a =~= b);
    }
}

/// The decimal digit for a number below ten.
pub open spec fn digit(number: nat) -> char {
    ((48 + number) as u8) as char
}

/// A number written in decimal, without leading zeros.
pub open spec fn decimal(number: nat) -> Seq<char>
    decreases number,
{
    if number < 10 {
        seq![digit(number)]
    } else {
        decimal(number / 10).push(digit(number % 10))
    }
}

/// Writes a number in decimal.
pub fn decimal_text(number: u128) -> (result: String)
    ensures
        result@ == decimal(number as nat),
    decreases number,
{
    if number < 10 {
        let mut result = String::new();
        result.push((48u8 + number as u8) as char);
        assert(result@ =~= decimal(number as nat));
        result
    } else {
        let mut result = decimal_text(number / 10);
        result.push((48u8 + (number % 10) as u8) as char);
        result
    }
}

/// An integer written in decimal, with a minus sign where it is negative.
pub open spec fn signed_decimal(number: int) -> Seq<char> {
    if number < 0 {
        seq!['-'] + decimal((-number) as nat)
    } else {
        decimal(number as nat)
    }
}

/// Writes an integer in decimal.
pub fn signed_decimal_text(number: i64) -> (result: String)
    ensures
        result@ == signed_decimal(number as int),
{
    if number < 0 {
        let mut result = String::new();
        result.push('-');
        let magnitude: i128 = -(number as i128);
        result.append(decimal_text(magnitude as u128).as_str());
        assert(result@ =~= signed_decimal(number as int));
        result
    } else {
        decimal_text(number as u128)
    }
}

/// A character that is a decimal digit.
pub open spec fn is_digit(character: char) -> bool {
    '0' <= character <= '9'
}

/// A text of decimal digits, at least one.
pub open spec fn all_digits(value: Seq<char>) -> bool {
    value.len() > 0 && forall|k: int| 0 <= k < value.len() ==> is_digit(#[trigger] value[k])
}

/// The number that a decimal digit stands for.
pub open spec fn digit_value(character: char) -> nat {
    if is_digit(character) {
        (character as int - '0' as int) as nat
    } else {
        0
    }
}

/// The number that decimal digits stand for.
pub open spec fn decimal_value(value: Seq<char>) -> nat
    decreases value.len(),
{
    if value.len() == 0 {
        0
    } else {
        decimal_value(value.drop_last()) * 10 + digit_value(value.last())
    }
}

proof fn lemma_decimal_value_grows(value: Seq<char>, count: int)
    requires
        0 <= count <= value.len(),
    ensures
        decimal_value(value.take(count)) <= decimal_value(value),
    decreases value.len(),
{
    if count < value.len() {
        lemma_decimal_value_grows(value.drop_last(), count);
        assert(value.drop_last().take(count) =~= value.take(count));
    } else {
        assert(value.take(count) =~= value);
    }
}

/// Reads decimal digits from a position on, as a number up to a limit.
fn read_magnitude(chars: &[char], start: usize, limit: u64) -> (result: Option<u64>)
    requires
        start <= chars@.len(),
    ensures
        result matches Some(number) ==> all_digits(chars@.skip(start as int)) && number
            == decimal_value(chars@.skip(start as int)) && number <= limit,
        result is None ==> !all_digits(chars@.skip(start as int)) || decimal_value(
            chars@.skip(start as int),
        ) > limit,
{
    let count: usize = chars.len();
    let ghost body = chars@.skip(start as int);
    if start == count {
        return None;
    }
    let mut value: u128 = 0;
    let mut index: usize = start;
    while index < count
        invariant
            start <= index <= count,
            count == chars@.len(),
            body == chars@.skip(start as int),
            value == decimal_value(body.take(index - start)),
            value <= limit,
            forall|k: int| 0 <= k < index - start ==> is_digit(#[trigger] body[k]),
        decreases count - index,
    {
        let character = chars[index];
        assert(body[index - start] == character);
        if !('0' <= character && character <= '9') {
            return None;
        }
        let place: u128 = (character as u32 - '0' as u32) as u128;
        value = value * 10 + place;
        proof {
            assert(body.take(index - start + 1).drop_last() =~= body.take(index - start));
            lemma_decimal_value_grows(body, index - start + 1);
        }
        if value > limit as u128 {
            return None;
        }
        index = index + 1;
    }
    assert(body.take(count - start) =~= body);
    Some(value as u64)
}

/// The integer that a text writes in decimal with an optional sign, where it is in the range.
pub open spec fn signed_value(value: Seq<char>, min: int, max: int) -> Option<int> {
    let negative = value.len() > 0 && value[0] == '-';
    let body = if value.len() > 0 && (value[0] == '-' || value[0] == '+') {
        value.skip(1)
    } else {
        value
    };
    let number = if negative {
        -(decimal_value(body) as int)
    } else {
        decimal_value(body) as int
    };
    if all_digits(body) && min <= number <= max {
        Some(number)
    } else {
        None
    }
}

/// The number that a text writes in decimal with an optional plus sign, where it is in the range.
pub open spec fn unsigned_value(value: Seq<char>, max: int) -> Option<int> {
    let body = if value.len() > 0 && value[0] == '+' {
        value.skip(1)
    } else {
        value
    };
    if all_digits(body) && decimal_value(body) <= max {
        Some(decimal_value(body) as int)
    } else {
        None
    }
}

/// Reads a signed 64-bit integer written in decimal.
pub fn parse_i64(value: &str) -> (result: Option<i64>)
    ensures
        result matches Some(number) ==> signed_value(
            value@,
            i64::MIN as int,
            i64::MAX as int,
        ) == Some(number as int),
        result is None ==> signed_value(value@, i64::MIN as int, i64::MAX as int) is None,
{
    let chars = chars_of(value);
    let negative = chars.len() > 0 && chars[0] == '-';
    let signed = negative || (chars.len() > 0 && chars[0] == '+');
    let start: usize = if signed {
        1
    } else {
        0
    };
    let limit: u64 = if negative {
        0x8000_0000_0000_0000
    } else {
        0x7fff_ffff_ffff_ffff
    };
    assert(value@.skip(0) =~= value@);
    match read_magnitude(chars.as_slice(), start, limit) {
        Some(number) => {
            if negative {
                Some((-(number as i128)) as i64)
            } else {
                Some(number as i64)
            }
        },
        None => None,
    }
}

/// Reads an unsigned 32-bit integer written in decimal.
pub fn parse_u32(value: &str) -> (result: Option<u32>)
    ensures
        result matches Some(number) ==> unsigned_value(value@, u32::MAX as int) == Some(
            number as int,
        ),
        result is None ==> unsigned_value(value@, u32::MAX as int) is None,
{
    let chars = chars_of(value);
    let start: usize = if chars.len() > 0 && chars[0] == '+' {
        1
    } else {
        0
    };
    assert(value@.skip(0) =~= value@);
    match read_magnitude(chars.as_slice(), start, 0xffff_ffff) {
        Some(number) => Some(number as u32),
        None => None,
    }
}

/// What `str::to_lowercase` makes of a text.
pub uninterp spec fn lowercase(value: Seq<char>) -> Seq<char>;

/// What `char::to_lowercase` makes of a character.
pub uninterp spec fn char_lowercase(character: char) -> Seq<char>;

/// Calls `str::to_lowercase`: the lower-case equivalent of a text, which depends on the text
/// alone.
#[verifier::external_body]
pub(crate) fn to_lowercase(value: &str) -> (result: String)
    ensures
        result@ == lowercase(value@),
{
    value.to_lowercase()
}

/// A capital letter of ASCII.
pub open spec fn is_capital(character: char) -> bool {
    'A' <= character <= 'Z'
}

/// A character with a capital letter of ASCII in lower case.
pub open spec fn small(character: char) -> char {
    if is_capital(character) {
        (character as u8 + 32) as char
    } else {
        character
    }
}

/// Calls `char::to_lowercase`: the lower-case mapping of a character, as a list of the characters
/// that it yields, which depends on the character alone. A character of ASCII yields one: a letter
/// its lower case, another one itself. What is yielded is in lower case, so no capital letter of
/// ASCII is among it.
#[verifier::external_body]
pub(crate) fn lowercase_chars(character: char) -> (result: Vec<char>)
    ensures
        result@ == char_lowercase(character),
        (character as u32) < 128 ==> result@ == seq![small(character)],
        forall|k: int| 0 <= k < result@.len() ==> !is_capital(#[trigger] result@[k]),
{
    character.to_lowercase().collect()
}

/// A character in lower case: one of ASCII by its letters, another one by its mapping, which holds
/// no capital letter of ASCII.
pub open spec fn lower_case(character: char) -> Seq<char> {
    if (character as u32) < 128 {
        seq![small(character)]
    } else {
        char_lowercase(character).map_values(|mapped: char| small(mapped))
    }
}

/// The characters of a text in lower case, one after the other.
pub open spec fn lowered(value: Seq<char>) -> Seq<char>
    decreases value.len(),
{
    if value.len() == 0 {
        Seq::empty()
    } else {
        lowered(value.drop_last()) + lower_case(value.last())
    }
}

/// No capital letter of ASCII is left in lower case.
pub proof fn lemma_lowered(value: Seq<char>)
    ensures
        forall|k: int|
            0 <= k < lowered(value).len() ==> !is_capital(#[trigger] lowered(value)[k]),
    decreases value.len(),
{
    if value.len() > 0 {
        lemma_lowered(value.drop_last());
        assert forall|k: int| 0 <= k < lowered(value).len() implies !is_capital(
            #[trigger] lowered(value)[k],
        ) by {
            let before = lowered(value.drop_last());
            if k < before.len() {
                assert(lowered(value)[k] == before[k]);
            } else {
                assert(lowered(value)[k] == lower_case(value.last())[k - before.len()]);
            }
        }
    }
}

/// A text of ASCII without capital letters is in lower case already.
pub proof fn lemma_lowered_stays(value: Seq<char>)
    requires
        forall|k: int|
            0 <= k < value.len() ==> (#[trigger] value[k] as u32) < 128 && !is_capital(value[k]),
    ensures
        lowered(value) == value,
    decreases value.len(),
{
    if value.len() > 0 {
        assert((value.last() as u32) < 128);
        lemma_lowered_stays(value.drop_last());
        assert(lowered(value) =~= value);
    } else {
        assert(lowered(value) =~= value);
    }
}

/// Maps each character of a text to lower case.
pub fn lowered_chars(value: &str) -> (result: Vec<char>)
    ensures
        result@ == lowered(value@),
{
    let chars = chars_of(value);
    let count: usize = chars.len();
    let mut result: Vec<char> = Vec::new();
    let mut index: usize = 0;
    while index < count
        invariant
            index <= count,
            count == chars@.len(),
            chars@ == value@,
            result@ == lowered(value@.take(index as int)),
        decreases count - index,
    {
        let mut mapped = lowercase_chars(chars[index]);
        assert(mapped@ =~= lower_case(chars@[index as int]));
        result.append(&mut mapped);
        assert(value@.take(index + 1).drop_last() =~= value@.take(index as int));
        index = index + 1;
    }
    assert(value@.take(count as int) =~= value@);
    result
}

/// Texts one after the other, with another text between each two.
pub open spec fn joined_with(parts: Seq<Seq<char>>, between: Seq<char>) -> Seq<char>
    decreases parts.len(),
{
    if parts.len() == 0 {
        Seq::empty()
    } else if parts.len() == 1 {
        parts[0]
    } else {
        joined_with(parts.drop_last(), between) + between + parts.last()
    }
}

/// Joins texts, with another text between each two.
pub fn join_texts(parts: &Vec<String>, between: &str) -> (result: String)
    ensures
        result@ == joined_with(texts(parts@), between@),
{
    let ghost all = texts(parts@);
    let mut result = String::new();
    let count: usize = parts.len();
    let mut index: usize = 0;
    assert(all.take(0) =~= Seq::<Seq<char>>::empty());
    while index < count
        invariant
            index <= count,
            count == parts@.len(),
            all == texts(parts@),
            result@ == joined_with(all.take(index as int), between@),
        decreases count - index,
    {
        proof {
            assert(all.take(index + 1).drop_last() =~= all.take(index as int));
            assert(all.take(index + 1).last() == parts@[index as int]@);
            assert(all.take(index + 1)[0] == all[0]);
        }
        if index > 0 {
            result.append(between);
        }
        result.append(parts[index].as_str());
        index = index + 1;
        proof {
            if index == 1 {
                assert(result@ =~= all.take(1)[0]);
            }
        }
    }
    assert(all.take(count as int) =~= all);
    result
}

proof fn lemma_trim_start(value: Seq<char>) -> (start: int)
    ensures
        0 <= start <= value.len(),
        trim_start(value) == value.skip(start),
        forall|k: int| 0 <= k < start ==> white_space(#[trigger] value[k]),
        start < value.len() ==> !white_space(value[start]),
    decreases value.len(),
{
    if value.len() > 0 && white_space(value[0]) {
        let rest = value.skip(1);
        let found = lemma_trim_start(rest);
        assert(rest.skip(found) =~= value.skip(found + 1));
        assert forall|k: int| 0 <= k < found + 1 implies white_space(#[trigger] value[k]) by {
            if k > 0 {
                assert(rest[k - 1] == value[k]);
            }
        }
        found + 1
    } else {
        assert(value.skip(0) =~= value);
        0
    }
}

proof fn lemma_trim_end(value: Seq<char>) -> (end: int)
    ensures
        0 <= end <= value.len(),
        trim_end(value) == value.take(end),
        forall|k: int| end <= k < value.len() ==> white_space(#[trigger] value[k]),
        end > 0 ==> !white_space(value[end - 1]),
    decreases value.len(),
{
    if value.len() > 0 && white_space(value.last()) {
        let rest = value.drop_last();
        let end = lemma_trim_end(rest);
        assert(rest.take(end) =~= value.take(end));
        assert forall|k: int| end <= k < value.len() implies white_space(#[trigger] value[k]) by {
            if k < rest.len() {
                assert(rest[k] == value[k]);
            }
        }
        end
    } else {
        assert(value.take(value.len() as int) =~= value);
        value.len() as int
    }
}

/// Trimming takes white space from both ends of a text, all of it and nothing else.
pub proof fn law_trimmed(value: Seq<char>)
    ensures
        exists|start: int, end: int|
            #![trigger value.subrange(start, end)]
            0 <= start <= end <= value.len() && trimmed(value) == value.subrange(start, end) && (
            forall|k: int| 0 <= k < start ==> white_space(#[trigger] value[k])) && (forall|k: int|
                end <= k < value.len() ==> white_space(#[trigger] value[k])),
        trimmed(value).len() > 0 ==> !white_space(trimmed(value)[0]) && !white_space(
            trimmed(value).last(),
        ),
{
    let start = lemma_trim_start(value);
    let rest = value.skip(start);
    let length = lemma_trim_end(rest);
    let end = start + length;
    assert(rest.take(length) =~= value.subrange(start, end));
    assert forall|k: int| end <= k < value.len() implies white_space(#[trigger] value[k]) by {
        assert(rest[k - start] == value[k]);
    }
    if length > 0 {
        assert(rest[0] == value[start]);
        assert(rest[length - 1] == value[end - 1]);
    }
}

/// Texts joined in two groups are the groups joined; one text joined is itself, and none make
/// nothing.
pub proof fn law_joined(left: Seq<Seq<char>>, right: Seq<Seq<char>>, one: Seq<char>, between: Seq<char>)
    ensures
        joined_with(Seq::empty(), between) == Seq::<char>::empty(),
        joined_with(seq![one], between) == one,
        left.len() > 0 && right.len() > 0 ==> joined_with(left + right, between) == joined_with(
            left,
            between,
        ) + between + joined_with(right, between),
    decreases right.len(),
{
    if left.len() > 0 && right.len() > 0 {
        let whole = left + right;
        assert(whole.drop_last() =~= left + right.drop_last());
        assert(whole.last() == right.last());
        if right.len() == 1 {
            assert(whole.drop_last() =~= left);
            assert(joined_with(whole, between) =~= joined_with(left, between) + between
                + joined_with(right, between));
        } else {
            law_joined(left, right.drop_last(), one, between);
            assert(joined_with(whole, between) =~= joined_with(left, between) + between
                + joined_with(right, between));
        }
    }
}

/// The lines of a text: what comes before its first line feed is the first, without a carriage
/// return that ends it, and the lines of the rest follow; a text without a line feed is one line, and
/// an empty one has none.
pub proof fn law_lines(first: Seq<char>, rest: Seq<char>)
    requires
        !first.contains('\n'),
    ensures
        lines(Seq::empty()) == Seq::<Seq<char>>::empty(),
        first.len() > 0 ==> lines(first) == seq![first],
        lines(first + seq!['\n'] + rest) == seq![
            if first.len() > 0 && first.last() == '\r' {
                first.drop_last()
            } else {
                first
            },
        ] + lines(rest),
        first.len() > 0 ==> first_line_of(first) == Some(first),
        first_line_of(first + seq!['\n'] + rest) == Some(
            if first.len() > 0 && first.last() == '\r' {
                first.drop_last()
            } else {
                first
            },
        ),
{
    let whole = first + seq!['\n'] + rest;
    let at = first.len() as int;
    assert forall|k: int| 0 <= k < at implies first[k] != '\n' by {
        assert(first.contains(first[k]));
    }
    assert(whole[at] == '\n');
    assert(forall|k: int| 0 <= k < at ==> whole[k] == first[k]);
    lemma_is_first_position(whole, '\n', at);
    lemma_is_first_position(first, '\n', at);
    assert(whole.take(at) =~= first);
    assert(whole.skip(at + 1) =~= rest);
}

/// Splitting at a separator loses nothing: no piece holds it, and the pieces joined by it are the
/// text.
pub proof fn law_split(value: Seq<char>, separator: char)
    ensures
        split(value, separator).len() > 0,
        forall|k: int|
            0 <= k < split(value, separator).len() ==> !(#[trigger] split(value, separator)[k]).contains(
            separator),
        joined_with(split(value, separator), seq![separator]) == value,
    decreases value.len(),
{
    lemma_first_position(value, separator);
    let position = first_position(value, separator);
    let pieces = split(value, separator);
    if position < value.len() {
        let first = value.take(position);
        let rest = value.skip(position + 1);
        law_split(rest, separator);
        assert forall|k: int| 0 <= k < pieces.len() implies !(#[trigger] pieces[k]).contains(
            separator,
        ) by {
            if k > 0 {
                assert(pieces[k] == split(rest, separator)[k - 1]);
            } else {
                assert(pieces[0] == first);
            }
        }
        law_joined(seq![first], split(rest, separator), first, seq![separator]);
        assert(value =~= first + seq![separator] + rest);
    } else {
        law_joined(Seq::empty(), Seq::empty(), value, seq![separator]);
    }
}

/// Lower case is made character by character, and the letters of ASCII lose their capitals.
pub proof fn law_lowered(left: Seq<char>, right: Seq<char>, letter: char)
    ensures
        lowered(left + right) == lowered(left) + lowered(right),
        'A' <= letter <= 'Z' ==> lowered(seq![letter]) == seq![(letter as u8 + 32) as char],
        'a' <= letter <= 'z' || '0' <= letter <= '9' ==> lowered(seq![letter]) == seq![letter],
        lowered(Seq::empty()) == Seq::<char>::empty(),
    decreases right.len(),
{
    let one = seq![letter];
    assert(one.drop_last() =~= Seq::<char>::empty());
    assert(lowered(one) =~= lowered(Seq::empty()) + lower_case(letter));
    assert(lowered(one) =~= lower_case(letter));
    if right.len() > 0 {
        law_lowered(left, right.drop_last(), letter);
        assert((left + right).drop_last() =~= left + right.drop_last());
        assert(lowered(left + right) =~= lowered(left) + lowered(right));
    } else {
        assert(left + right =~= left);
        assert(lowered(left) + lowered(right) =~= lowered(left));
    }
}

/// A text that stands within another occurs in it, and what occurs stands within.
pub proof fn law_contained(value: Seq<char>, needle: Seq<char>, front: Seq<char>, back: Seq<char>)
    ensures
        contains(front + needle + back, needle),
        contains(value, needle) <==> exists|at: int|
            0 <= at <= value.len() - needle.len() && #[trigger] value.subrange(
                at,
                at + needle.len(),
            ) == needle,
{
    let whole = front + needle + back;
    assert(whole.subrange(front.len() as int, (front.len() + needle.len()) as int) =~= needle);
    assert(occurs_at(whole, needle, front.len() as int));
    if contains(value, needle) {
        let at = choose|at: int| occurs_at(value, needle, at);
        assert(value.subrange(at, at + needle.len()) == needle);
    }
    if exists|at: int|
        0 <= at <= value.len() - needle.len() && #[trigger] value.subrange(
            at,
            at + needle.len(),
        ) == needle {
        let at = choose|at: int|
            0 <= at <= value.len() - needle.len() && #[trigger] value.subrange(
                at,
                at + needle.len(),
            ) == needle;
        assert(occurs_at(value, needle, at));
    }
}

} // verus!
