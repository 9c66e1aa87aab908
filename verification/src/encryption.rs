//! Parameters of disk encryption: the key, written as hexadecimal text, and
//! the algorithm.

use vstd::prelude::*;
use vstd::string::*;
use vstd::utf8::*;
use crate::model::le_bytes;

verus! {

/// The size of a disk sector in bytes. Data is encrypted sector by sector.
pub const SECTOR_SIZE: usize = 512;

/// The algorithm used for encryption.
#[derive(Debug, Clone, Copy, PartialEq, Eq, Structural)]
pub enum EncryptionAlgorithm {
    /// XEX-based tweaked codebook mode with ciphertext stealing, for the
    /// Advanced Encryption Standard with a key of 512 bits.
    AES256XTS,
}

/// The parameters used for encryption and decryption of data.
#[derive(Debug, Clone)]
pub struct EncryptionDescription {
    /// The key used for data encryption.
    pub key: Vec<u8>,
    /// The algorithm used for data encryption.
    pub algorithm: EncryptionAlgorithm,
}

/// The value of a hexadecimal digit, in either case.
pub open spec fn hex_value(b: u8) -> Option<u8> {
    if 0x30 <= b <= 0x39 {
        Some((b - 0x30) as u8)
    } else if 0x61 <= b <= 0x66 {
        Some((b - 0x61 + 10) as u8)
    } else if 0x41 <= b <= 0x46 {
        Some((b - 0x41 + 10) as u8)
    } else {
        None
    }
}

/// The byte that two characters of a key stand for: two hexadecimal digits,
/// or a plus sign and one hexadecimal digit.
pub open spec fn pair_value(first: u8, second: u8) -> Option<u8> {
    if first == 0x2b {
        hex_value(second)
    } else {
        match (hex_value(first), hex_value(second)) {
            (Some(high), Some(low)) => Some((16 * high + low) as u8),
            _ => None,
        }
    }
}

/// Whether the bytes of a text are a key: an even number of bytes, each pair a byte.
pub open spec fn is_key_text(text: Seq<u8>) -> bool {
    &&& text.len() % 2 == 0
    &&& forall|i: int| 0 <= i < text.len() / 2 ==> pair_value(text[2 * i], #[trigger] text[2 * i + 1]) is Some
}

/// The key that a key text stands for.
pub open spec fn key_of_text(text: Seq<u8>) -> Seq<u8> {
    Seq::new((text.len() / 2) as nat, |i: int| pair_value(text[2 * i], text[2 * i + 1]).unwrap())
}

fn hex_digit(b: u8) -> (r: Option<u8>)
    ensures
        r == hex_value(b),
{
    if 0x30 <= b && b <= 0x39 {
        Some(b - 0x30)
    } else if 0x61 <= b && b <= 0x66 {
        Some(b - 0x61 + 10)
    } else if 0x41 <= b && b <= 0x46 {
        Some(b - 0x41 + 10)
    } else {
        None
    }
}

fn pair_byte(first: u8, second: u8) -> (r: Option<u8>)
    ensures
        r == pair_value(first, second),
{
    if first == 0x2b {
        hex_digit(second)
    } else {
        match (hex_digit(first), hex_digit(second)) {
            (Some(high), Some(low)) => Some(16 * high + low),
            _ => None,
        }
    }
}

/// Reads a key from hexadecimal text.
///
/// The text is taken as UTF-8 bytes, two for each byte of the key. A text of
/// odd length, or with a pair that is no byte, is handed back as the error.
pub fn parse_str(s: &str) -> (r: Result<Vec<u8>, &str>)
    ensures
        r is Ok <==> is_key_text(s.spec_bytes()),
        r is Ok ==> r.unwrap()@ == key_of_text(s.spec_bytes()),
        r is Err ==> r.unwrap_err()@ == s@,
{
    let text = s.as_bytes();
    if text.len() % 2 == 1 {
        return Err(s);
    }
    let mut bytes: Vec<u8> = Vec::with_capacity(text.len() / 2);
    let mut i: usize = 0;
    while i < text.len()
        invariant
            text@ == s.spec_bytes(),
            text@.len() % 2 == 0,
            i % 2 == 0,
            i <= text@.len(),
            bytes@.len() == i / 2,
            forall|k: int| 0 <= k < i / 2 ==> pair_value(text@[2 * k], #[trigger] text@[2 * k + 1]) is Some,
            forall|k: int| 0 <= k < i / 2 ==> #[trigger] bytes@[k] == pair_value(text@[2 * k], text@[2 * k + 1]).unwrap(),
        decreases text@.len() - i,
    {
        match pair_byte(text[i], text[i + 1]) {
            Some(b) => {
                bytes.push(b);
            },
            None => {
                assert(pair_value(text@[2 * (i as int / 2)], text@[2 * (i as int / 2) + 1]) is None);
                return Err(s);
            },
        }
        i += 2;
    }
    assert(bytes@ =~= key_of_text(text@));
    Ok(bytes)
}

/// The lower-case hexadecimal digit of a value below 16.
pub open spec fn hex_char(d: nat) -> char
    recommends
        d < 16,
{
    if d < 10 {
        crate::text::digit_char(d)
    } else if d == 10 {
        'a'
    } else if d == 11 {
        'b'
    } else if d == 12 {
        'c'
    } else if d == 13 {
        'd'
    } else if d == 14 {
        'e'
    } else {
        'f'
    }
}

/// A key as text: two lower-case hexadecimal digits for each byte.
pub open spec fn text_of_key(key: Seq<u8>) -> Seq<char>
    decreases key.len(),
{
    if key.len() == 0 {
        Seq::empty()
    } else {
        text_of_key(key.drop_last()).push(hex_char((key.last() / 16) as nat)).push(
            hex_char((key.last() % 16) as nat),
        )
    }
}

fn hex_text(d: u8) -> (r: &'static str)
    requires
        d < 16,
    ensures
        r@ == seq![hex_char(d as nat)],
{
    proof {
        reveal_strlit("0");
        reveal_strlit("1");
        reveal_strlit("2");
        reveal_strlit("3");
        reveal_strlit("4");
        reveal_strlit("5");
        reveal_strlit("6");
        reveal_strlit("7");
        reveal_strlit("8");
        reveal_strlit("9");
        reveal_strlit("a");
        reveal_strlit("b");
        reveal_strlit("c");
        reveal_strlit("d");
        reveal_strlit("e");
        reveal_strlit("f");
    }
    let r: &'static str = match d {
        0 => "0",
        1 => "1",
        2 => "2",
        3 => "3",
        4 => "4",
        5 => "5",
        6 => "6",
        7 => "7",
        8 => "8",
        9 => "9",
        10 => "a",
        11 => "b",
        12 => "c",
        13 => "d",
        14 => "e",
        _ => "f",
    };
    assert(r@ =~= seq![hex_char(d as nat)]);
    r
}

/// Writes a key as hexadecimal text.
pub fn to_string(byte_array: &Vec<u8>) -> (r: String)
    ensures
        r@ == text_of_key(byte_array@),
{
    let mut hex_string = String::new();
    let mut i: usize = 0;
    assert(byte_array@.subrange(0, 0).len() == 0);
    while i < byte_array.len()
        invariant
            i <= byte_array@.len(),
            hex_string@ == text_of_key(byte_array@.subrange(0, i as int)),
        decreases byte_array@.len() - i,
    {
        let ghost next = byte_array@.subrange(0, i + 1);
        assert(next.drop_last() =~= byte_array@.subrange(0, i as int));
        assert(next.last() == byte_array@[i as int]);
        let b: u8 = byte_array[i];
        hex_string.append(hex_text(b / 16));
        hex_string.append(hex_text(b % 16));
        assert(hex_string@ =~= text_of_key(next));
        i += 1;
    }
    assert(byte_array@.subrange(0, i as int) =~= byte_array@);
    hex_string
}

/// The text of a key has two characters for each byte: the digit of the high
/// half of the byte and the digit of its low half.
pub proof fn lemma_text_of_key(key: Seq<u8>)
    ensures
        text_of_key(key).len() == 2 * key.len(),
        forall|i: int|
            0 <= i < key.len() ==> #[trigger] text_of_key(key)[2 * i] == hex_char(
                (key[i] / 16) as nat,
            ) && text_of_key(key)[2 * i + 1] == hex_char((key[i] % 16) as nat),
    decreases key.len(),
{
    if key.len() > 0 {
        let front = key.drop_last();
        lemma_text_of_key(front);
        assert forall|i: int| 0 <= i < key.len() implies #[trigger] text_of_key(key)[2 * i]
            == hex_char((key[i] / 16) as nat) && text_of_key(key)[2 * i + 1] == hex_char(
            (key[i] % 16) as nat,
        ) by {
            if i < front.len() {
                assert(front[i] == key[i]);
                assert(text_of_key(key)[2 * i] == text_of_key(front)[2 * i]);
                assert(text_of_key(key)[2 * i + 1] == text_of_key(front)[2 * i + 1]);
            }
        }
    }
}

/// A hexadecimal digit is read as the value that it was written for.
pub proof fn lemma_hex_char_value(d: nat)
    requires
        d < 16,
    ensures
        '\0' <= hex_char(d) <= '\u{7f}',
        hex_value(hex_char(d) as u8) == Some(d as u8),
{
}

/// A key that is written as text is read back from that text as it was.
pub proof fn law_key_text_is_read_back(key: Seq<u8>)
    ensures
        is_key_text(encode_utf8(text_of_key(key))),
        key_of_text(encode_utf8(text_of_key(key))) == key,
{
    let text = text_of_key(key);
    let bytes = encode_utf8(text);
    lemma_text_of_key(key);
    assert forall|j: int| 0 <= j < text.len() implies '\0' <= #[trigger] text[j] <= '\u{7f}' by {
        let i = j / 2;
        assert(text[2 * i] == hex_char((key[i] / 16) as nat));
        lemma_hex_char_value((key[i] / 16) as nat);
        lemma_hex_char_value((key[i] % 16) as nat);
    }
    assert(is_ascii_chars(text));
    is_ascii_chars_encode_utf8(text);
    assert forall|i: int| 0 <= i < bytes.len() / 2 implies pair_value(
        bytes[2 * i],
        #[trigger] bytes[2 * i + 1],
    ) == Some(key[i]) by {
        assert(text[2 * i] == hex_char((key[i] / 16) as nat));
        lemma_hex_char_value((key[i] / 16) as nat);
        lemma_hex_char_value((key[i] % 16) as nat);
        assert(bytes[2 * i] == text[2 * i] as u8);
        assert(bytes[2 * i + 1] == text[2 * i + 1] as u8);
    }
    assert(key_of_text(bytes) =~= key);
}

/// The number of whole sectors in `data_len` bytes. Data is encrypted and
/// decrypted in whole sectors; what is left over is not touched.
pub fn sector_count(data_len: usize) -> (r: u64)
    ensures
        r == data_len / SECTOR_SIZE,
{
    (data_len / SECTOR_SIZE) as u64
}

/// The initialization vector of a sector: the index of the sector as a
/// number of sixteen bytes, the lowest byte first.
pub fn sector_iv(sector_index: u64) -> (r: Vec<u8>)
    ensures
        r@ == le_bytes(sector_index as nat, 16),
{
    let mut iv: Vec<u8> = Vec::new();
    let mut rest: u64 = sector_index;
    let mut i: usize = 0;
    while i < 16
        invariant
            i <= 16,
            iv@.len() == i,
            iv@ + le_bytes(rest as nat, (16 - i) as nat) == le_bytes(sector_index as nat, 16),
        decreases 16 - i,
    {
        let ghost before = iv@;
        iv.push((rest % 256) as u8);
        assert(before + le_bytes(rest as nat, (16 - i) as nat) =~= iv@ + le_bytes(
            (rest / 256) as nat,
            (16 - i - 1) as nat,
        ));
        rest = rest / 256;
        i += 1;
    }
    assert(iv@ + le_bytes(rest as nat, 0) =~= iv@);
    iv
}

/// The index of the sector that stands `sector_offset` sectors after the
/// sector `no_sector`, where there is one.
pub fn sector_index(no_sector: u64, sector_offset: u64) -> (r: Option<u64>)
    ensures
        r is Some <==> no_sector + sector_offset <= u64::MAX,
        r is Some ==> r.unwrap() == no_sector + sector_offset,
{
    no_sector.checked_add(sector_offset)
}

} // verus!
