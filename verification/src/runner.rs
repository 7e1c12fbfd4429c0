//! Arguments carried as hexadecimal text, safe inside any shell command.
use vstd::prelude::*;
use vstd::string::*;
use vstd::utf8::*;

use crate::text::{digit, small};

verus! {

/// Why an encoded argument could not be read.
#[derive(Clone, Copy, Debug, PartialEq, Eq, Structural)]
pub enum DecodeFault {
    /// An odd length, or a pair that is not a hexadecimal number.
    Invalid,
    /// A pair of bytes that is not text by itself.
    NotText,
    /// The decoded bytes are not UTF-8.
    NotUtf8,
}

/// An encoded argument that could not be read, with the argument's name.
#[derive(Debug)]
pub struct DecodeError {
    pub fault: DecodeFault,
    pub name: String,
}

impl DecodeError {
    /// The message shown for the error.
    pub open spec fn text(self) -> Seq<char> {
        match self.fault {
            DecodeFault::Invalid => "invalid encoded "@ + self.name@,
            DecodeFault::NotText => "invalid hexadecimal argument"@,
            DecodeFault::NotUtf8 => "encoded "@ + self.name@ + " is not UTF-8"@,
        }
    }

    /// Writes the message shown for the error.
    pub fn message(&self) -> (message: String)
        ensures
            message@ == self.text(),
    {
        match self.fault {
            DecodeFault::Invalid => {
                let mut message = "invalid encoded ".to_owned();
                message.append(self.name.as_str());
                message
            },
            DecodeFault::NotText => "invalid hexadecimal argument".to_owned(),
            DecodeFault::NotUtf8 => {
                let mut message = "encoded ".to_owned();
                message.append(self.name.as_str());
                message.append(" is not UTF-8");
                message
            },
        }
    }
}

/// The lower-case hexadecimal digit for a number below sixteen.
pub open spec fn hex_digit(number: nat) -> char {
    if number < 10 {
        digit(number)
    } else {
        ((87 + number) as u8) as char
    }
}

/// Bytes written as two hexadecimal digits each.
pub open spec fn hex(bytes: Seq<u8>) -> Seq<char>
    decreases bytes.len(),
{
    if bytes.len() == 0 {
        Seq::empty()
    } else {
        hex(bytes.drop_last()).push(hex_digit((bytes.last() / 16) as nat)).push(
            hex_digit((bytes.last() % 16) as nat),
        )
    }
}

/// A text as the hexadecimal form of its UTF-8 bytes.
pub open spec fn encoded(value: Seq<char>) -> Seq<char> {
    hex(encode_utf8(value))
}

fn hex_char(number: u8) -> (character: char)
    requires
        number < 16,
    ensures
        character == hex_digit(number as nat),
{
    if number < 10 {
        (48u8 + number) as char
    } else {
        (87u8 + number) as char
    }
}

/// Writes a text as the hexadecimal form of its UTF-8 bytes.
pub fn encode(value: &str) -> (result: String)
    ensures
        result@ == encoded(value@),
{
    let bytes = value.as_bytes();
    let count: usize = bytes.len();
    let mut result = String::new();
    let mut index: usize = 0;
    while index < count
        invariant
            index <= count,
            count == bytes@.len(),
            bytes@ == value.spec_bytes(),
            result@ == hex(bytes@.take(index as int)),
        decreases count - index,
    {
        let byte: u8 = bytes[index];
        result.push(hex_char(byte / 16));
        result.push(hex_char(byte % 16));
        assert(bytes@.take(index + 1).drop_last() =~= bytes@.take(index as int));
        index = index + 1;
    }
    assert(bytes@.take(count as int) =~= bytes@);
    result
}

/// The number that a hexadecimal digit of either case stands for.
pub open spec fn hex_value(byte: u8) -> Option<nat> {
    if 48 <= byte <= 57 {
        Some((byte - 48) as nat)
    } else if 65 <= byte <= 70 {
        Some((byte - 55) as nat)
    } else if 97 <= byte <= 102 {
        Some((byte - 87) as nat)
    } else {
        None
    }
}

/// The byte that a pair stands for: two hexadecimal digits, or a plus sign and one.
pub open spec fn pair_value(high: u8, low: u8) -> Result<u8, DecodeFault> {
    if !valid_utf8(seq![high, low]) {
        Err(DecodeFault::NotText)
    } else if hex_value(low) is None {
        Err(DecodeFault::Invalid)
    } else if high == 43 {
        Ok(hex_value(low)->0 as u8)
    } else if hex_value(high) is None {
        Err(DecodeFault::Invalid)
    } else {
        Ok((hex_value(high)->0 * 16 + hex_value(low)->0) as u8)
    }
}

/// The bytes that pairs stand for, or the fault of the first pair that stands for none.
pub open spec fn pair_values(pairs: Seq<u8>) -> Result<Seq<u8>, DecodeFault>
    decreases pairs.len(),
{
    if pairs.len() < 2 {
        Ok(Seq::empty())
    } else {
        match pair_values(pairs.take(pairs.len() - 2)) {
            Err(fault) => Err(fault),
            Ok(bytes) => match pair_value(pairs[pairs.len() - 2], pairs[pairs.len() - 1]) {
                Err(fault) => Err(fault),
                Ok(byte) => Ok(bytes.push(byte)),
            },
        }
    }
}

/// The text that an encoded argument stands for.
pub open spec fn decoded(value: Seq<char>) -> Result<Seq<char>, DecodeFault> {
    let pairs = encode_utf8(value);
    if pairs.len() % 2 != 0 {
        Err(DecodeFault::Invalid)
    } else {
        match pair_values(pairs) {
            Err(fault) => Err(fault),
            Ok(bytes) => if valid_utf8(bytes) {
                Ok(decode_utf8(bytes))
            } else {
                Err(DecodeFault::NotUtf8)
            },
        }
    }
}

/// Calls `String::from_utf8`: the text that the bytes encode, and nothing where they are not
/// UTF-8.
#[verifier::external_body]
pub(crate) fn utf8_text(bytes: Vec<u8>) -> (result: Option<String>)
    ensures
        valid_utf8(bytes@) ==> result is Some && result->0@ == decode_utf8(bytes@),
        !valid_utf8(bytes@) ==> result is None,
{
    String::from_utf8(bytes).ok()
}

/// Whether two bytes are UTF-8 text by themselves.
fn is_pair_text(high: u8, low: u8) -> (text: bool)
    ensures
        text == valid_utf8(seq![high, low]),
{
    let text = (high < 0x80 && low < 0x80) || (0xc2 <= high && high <= 0xdf && 0x80 <= low && low
        <= 0xbf);
    proof {
        reveal_with_fuel(valid_utf8, 3);
        let pair = seq![high, low];
        assert(pair[0] == high && pair[1] == low);
        assert(pair.subrange(1, 2) =~= seq![low]);
        assert(pair.subrange(2, 2) =~= Seq::<u8>::empty());
        assert(seq![low].subrange(1, 1) =~= Seq::<u8>::empty());
        assert(high <= 0x7f ==> (high & 0x7f) as u32 <= 0x7f) by (bit_vector);
        assert(low <= 0x7f ==> (low & 0x7f) as u32 <= 0x7f) by (bit_vector);
        assert(0xc0 <= high <= 0xdf && 0x80 <= low <= 0xbf ==> {
            let codepoint = (((high & 0x1f) as u32) << 6) | ((low & 0x3f) as u32);
            &&& codepoint <= 0x7ff
            &&& codepoint >= 0x80 <==> high >= 0xc2
        }) by (bit_vector);
    }
    text
}

fn hex_number(byte: u8) -> (number: Option<u8>)
    ensures
        number matches Some(value) ==> value < 16 && hex_value(byte) == Some(value as nat),
        number is None ==> hex_value(byte) is None,
{
    if 48 <= byte && byte <= 57 {
        Some(byte - 48)
    } else if 65 <= byte && byte <= 70 {
        Some(byte - 55)
    } else if 97 <= byte && byte <= 102 {
        Some(byte - 87)
    } else {
        None
    }
}

fn read_pair(high: u8, low: u8) -> (byte: Result<u8, DecodeFault>)
    ensures
        byte == pair_value(high, low),
{
    if !is_pair_text(high, low) {
        return Err(DecodeFault::NotText);
    }
    match hex_number(low) {
        None => Err(DecodeFault::Invalid),
        Some(low_number) => {
            if high == 43 {
                Ok(low_number)
            } else {
                match hex_number(high) {
                    None => Err(DecodeFault::Invalid),
                    Some(high_number) => Ok(high_number * 16 + low_number),
                }
            }
        },
    }
}

proof fn lemma_first_fault(pairs: Seq<u8>, count: int)
    requires
        0 <= count <= pairs.len(),
        count % 2 == 0,
        pairs.len() % 2 == 0,
        pair_values(pairs.take(count)) is Err,
    ensures
        pair_values(pairs) == pair_values(pairs.take(count)),
    decreases pairs.len(),
{
    if count < pairs.len() {
        let shorter = pairs.take(pairs.len() - 2);
        assert(shorter.take(count) =~= pairs.take(count));
        lemma_first_fault(shorter, count);
    } else {
        assert(pairs.take(count) =~= pairs);
    }
}

/// Reads an argument back from its hexadecimal form. The name goes into the error.
pub fn decode(value: &str, name: &str) -> (result: Result<String, DecodeError>)
    ensures
        match result {
            Ok(text) => decoded(value@) == Ok::<Seq<char>, DecodeFault>(text@),
            Err(error) => decoded(value@) == Err::<Seq<char>, DecodeFault>(error.fault)
                && error.name@ == name@,
        },
{
    let pairs = value.as_bytes();
    let count: usize = pairs.len();
    if count % 2 != 0 {
        return Err(DecodeError { fault: DecodeFault::Invalid, name: name.to_owned() });
    }
    let mut bytes: Vec<u8> = Vec::new();
    let mut index: usize = 0;
    while index < count
        invariant
            index <= count,
            index % 2 == 0,
            count % 2 == 0,
            count == pairs@.len(),
            pairs@ == encode_utf8(value@),
            pair_values(pairs@.take(index as int)) == Ok::<Seq<u8>, DecodeFault>(bytes@),
        decreases count - index,
    {
        assert(pairs@.take(index + 2).take(index as int) =~= pairs@.take(index as int));
        match read_pair(pairs[index], pairs[index + 1]) {
            Ok(byte) => {
                bytes.push(byte);
            },
            Err(fault) => {
                proof {
                    lemma_first_fault(pairs@, index + 2);
                }
                return Err(DecodeError { fault, name: name.to_owned() });
            },
        }
        index = index + 2;
    }
    assert(pairs@.take(count as int) =~= pairs@);
    match utf8_text(bytes) {
        Some(text) => Ok(text),
        None => Err(DecodeError { fault: DecodeFault::NotUtf8, name: name.to_owned() }),
    }
}

/// A character of the encoded form: a digit or a letter from `a` to `f`.
pub open spec fn is_hex_char(character: char) -> bool {
    '0' <= character <= '9' || 'a' <= character <= 'f'
}

/// The encoded form has two characters for each byte, each a digit or a letter from `a` to `f`:
/// nothing in it means anything to a shell.
pub proof fn law_encoded_is_hexadecimal(value: Seq<char>)
    ensures
        encoded(value).len() == 2 * encode_utf8(value).len(),
        forall|k: int| 0 <= k < encoded(value).len() ==> is_hex_char(#[trigger] encoded(value)[k]),
{
    lemma_hex_chars(encode_utf8(value));
}

proof fn lemma_hex_chars(bytes: Seq<u8>)
    ensures
        hex(bytes).len() == 2 * bytes.len(),
        forall|k: int| 0 <= k < hex(bytes).len() ==> is_hex_char(#[trigger] hex(bytes)[k]),
    decreases bytes.len(),
{
    if bytes.len() > 0 {
        lemma_hex_chars(bytes.drop_last());
    }
}

proof fn lemma_pairs_of_hex(bytes: Seq<u8>)
    ensures
        pair_values(Seq::new(hex(bytes).len(), |i: int| hex(bytes)[i] as u8)) == Ok::<
            Seq<u8>,
            DecodeFault,
        >(bytes),
    decreases bytes.len(),
{
    lemma_hex_chars(bytes);
    let pairs = Seq::new(hex(bytes).len(), |i: int| hex(bytes)[i] as u8);
    if bytes.len() > 0 {
        let shorter = bytes.drop_last();
        lemma_hex_chars(shorter);
        lemma_pairs_of_hex(shorter);
        assert(pairs.take(pairs.len() - 2) =~= Seq::new(
            hex(shorter).len(),
            |i: int| hex(shorter)[i] as u8,
        ));
        let high = pairs[pairs.len() - 2];
        let low = pairs[pairs.len() - 1];
        let byte = bytes.last();
        assert(high == hex_digit((byte / 16) as nat) as u8);
        assert(low == hex_digit((byte % 16) as nat) as u8);
        lemma_ascii_pair(high, low);
        assert(hex_value(high) == Some((byte / 16) as nat));
        assert(hex_value(low) == Some((byte % 16) as nat));
        assert(pair_value(high, low) == Ok::<u8, DecodeFault>(byte));
        assert(shorter.push(byte) =~= bytes);
    } else {
        assert(bytes =~= Seq::<u8>::empty());
    }
}

proof fn lemma_ascii_pair(high: u8, low: u8)
    requires
        high < 0x80,
        low < 0x80,
    ensures
        valid_utf8(seq![high, low]),
{
    reveal_with_fuel(valid_utf8, 3);
    let pair = seq![high, low];
    assert(pair.subrange(1, 2) =~= seq![low]);
    assert(seq![low].subrange(1, 1) =~= Seq::<u8>::empty());
    assert(high <= 0x7f ==> (high & 0x7f) as u32 <= 0x7f) by (bit_vector);
    assert(low <= 0x7f ==> (low & 0x7f) as u32 <= 0x7f) by (bit_vector);
}

/// A hexadecimal digit of either case.
pub open spec fn is_hexadecimal(character: char) -> bool {
    is_hex_char(character) || 'A' <= character <= 'F'
}

proof fn lemma_hex_of_pairs(value: Seq<char>)
    requires
        value.len() % 2 == 0,
        forall|k: int| 0 <= k < value.len() ==> is_hexadecimal(#[trigger] value[k]),
    ensures
        pair_values(Seq::new(value.len(), |i: int| value[i] as u8)) matches Ok(bytes) && hex(bytes)
            == value.map_values(|character: char| small(character)),
    decreases value.len(),
{
    let pairs = Seq::new(value.len(), |i: int| value[i] as u8);
    let lower = value.map_values(|character: char| small(character));
    if value.len() > 0 {
        let end = value.len() - 2;
        let shorter = value.take(end);
        lemma_hex_of_pairs(shorter);
        assert(pairs.take(end) =~= Seq::new(shorter.len(), |i: int| shorter[i] as u8));
        let before = pair_values(pairs.take(end))->Ok_0;
        assert(is_hexadecimal(value[end]) && is_hexadecimal(value[end + 1]));
        lemma_ascii_pair(pairs[end], pairs[end + 1]);
        let high = hex_value(pairs[end])->0;
        let low = hex_value(pairs[end + 1])->0;
        assert(hex_digit(high) == small(value[end]));
        assert(hex_digit(low) == small(value[end + 1]));
        let byte = pair_value(pairs[end], pairs[end + 1])->Ok_0;
        assert(byte / 16 == high && byte % 16 == low);
        assert(before.push(byte).drop_last() =~= before);
        assert(hex(before.push(byte)) =~= lower);
    } else {
        assert(hex(Seq::empty()) =~= lower);
    }
}

/// Encoding gives back the digits that were decoded, in lower case.
pub proof fn law_encode_inverts_decode(value: Seq<char>)
    requires
        forall|k: int| 0 <= k < value.len() ==> is_hexadecimal(#[trigger] value[k]),
    ensures
        decoded(value) matches Ok(text) ==> encoded(text) == value.map_values(
            |character: char| small(character),
        ),
{
    if decoded(value) is Ok {
        assert(is_ascii_chars(value)) by {
            assert forall|k: int| 0 <= k < value.len() implies '\0' <= #[trigger] value[k]
                <= '\u{7f}' by {
                assert(is_hexadecimal(value[k]));
            }
        }
        is_ascii_chars_encode_utf8(value);
        assert(encode_utf8(value) =~= Seq::new(value.len(), |i: int| value[i] as u8));
        lemma_hex_of_pairs(value);
        decode_utf8_encode_utf8(pair_values(encode_utf8(value))->Ok_0);
    }
}

/// Decoding gives back what was encoded, for every text.
pub proof fn law_decode_inverts_encode(value: Seq<char>)
    ensures
        decoded(encoded(value)) == Ok::<Seq<char>, DecodeFault>(value),
{
    let bytes = encode_utf8(value);
    let chars = hex(bytes);
    lemma_hex_chars(bytes);
    assert(is_ascii_chars(chars)) by {
        assert forall|k: int| 0 <= k < chars.len() implies '\0' <= #[trigger] chars[k] <= '\u{7f}' by {
            assert(is_hex_char(chars[k]));
        }
    }
    is_ascii_chars_encode_utf8(chars);
    lemma_pairs_of_hex(bytes);
    assert(encode_utf8(chars) =~= Seq::new(chars.len(), |i: int| chars[i] as u8));
    encode_utf8_valid_utf8(value);
    encode_utf8_decode_utf8(value);
}

} // verus!
