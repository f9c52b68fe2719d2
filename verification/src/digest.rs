//! File names derived from texts.

use sha2::Digest;
use vstd::prelude::*;

verus! {

/// The SHA-256 digest of a sequence of bytes.
pub uninterp spec fn sha256(data: Seq<u8>) -> Seq<u8>;

/// Hashes bytes with `sha2::Sha256::digest`: the result is the SHA-256 digest
/// of the bytes, thirty-two bytes long. What the digest is on given bytes, and
/// that different bytes rarely share one, is left unsaid.
#[verifier::external_body]
pub(crate) fn sha256_digest(data: &[u8]) -> (digest: Vec<u8>)
    ensures
        digest@ == sha256(data@),
        digest@.len() == 32,
{
    sha2::Sha256::digest(data).to_vec()
}

/// The hexadecimal digit, in small letters, of a number below sixteen.
pub open spec fn hex_digit(value: nat) -> char {
    if value < 10 {
        (48 + value) as char
    } else {
        (87 + value) as char
    }
}

/// Bytes in hexadecimal notation, two small digits each.
pub open spec fn hex(bytes: Seq<u8>) -> Seq<char>
    decreases bytes.len(),
{
    if bytes.len() == 0 {
        Seq::empty()
    } else {
        hex(bytes.drop_last()).push(hex_digit((bytes.last() / 16) as nat)).push(
            hex_digit((bytes.last() % 16) as nat),
        )
    }
}

/// The key of a text: the digest of its encoding, in hexadecimal notation.
pub open spec fn key_of(name: Seq<char>) -> Seq<char> {
    hex(sha256(vstd::utf8::encode_utf8(name)))
}

/// Hexadecimal notation takes two characters a byte, each a digit or a small
/// letter up to `f`: nothing that means anything in a path.
pub proof fn law_hex_is_plain(bytes: Seq<u8>)
    ensures
        hex(bytes).len() == 2 * bytes.len(),
        forall|i: int|
            0 <= i < hex(bytes).len() ==> {
                ||| '0' <= #[trigger] hex(bytes)[i] <= '9'
                ||| 'a' <= hex(bytes)[i] <= 'f'
            },
    decreases bytes.len(),
{
    if bytes.len() > 0 {
        law_hex_is_plain(bytes.drop_last());
        let front = hex(bytes.drop_last());
        assert forall|i: int| 0 <= i < hex(bytes).len() implies {
            ||| '0' <= #[trigger] hex(bytes)[i] <= '9'
            ||| 'a' <= hex(bytes)[i] <= 'f'
        } by {
            if i < front.len() {
                assert(hex(bytes)[i] == front[i]);
            }
        }
    }
}

/// Different bytes have different notations, so two keys are equal only if the
/// digests are.
pub proof fn law_hex_is_injective(left: Seq<u8>, right: Seq<u8>)
    requires
        hex(left) == hex(right),
    ensures
        left == right,
    decreases left.len(),
{
    law_hex_is_plain(left);
    law_hex_is_plain(right);
    if left.len() > 0 {
        let notation = hex(left);
        let front = hex(left.drop_last());
        let other = hex(right.drop_last());
        assert(front =~= notation.take(notation.len() - 2));
        assert(other =~= hex(right).take(notation.len() - 2));
        law_hex_is_injective(left.drop_last(), right.drop_last());
        assert(notation[notation.len() - 2] == hex_digit((left.last() / 16) as nat));
        assert(hex(right)[notation.len() - 2] == hex_digit((right.last() / 16) as nat));
        assert(notation[notation.len() - 1] == hex_digit((left.last() % 16) as nat));
        assert(hex(right)[notation.len() - 1] == hex_digit((right.last() % 16) as nat));
        assert(left.last() == right.last());
        assert(left =~= left.drop_last().push(left.last()));
        assert(right =~= right.drop_last().push(right.last()));
    } else {
        assert(left =~= right);
    }
}

/// The hexadecimal digit, in small letters, of a number below sixteen.
fn hex_char(value: u8) -> (character: char)
    requires
        value < 16,
    ensures
        character == hex_digit(value as nat),
{
    if value < 10 {
        (48 + value) as char
    } else {
        (87 + value) as char
    }
}

/// Writes bytes in hexadecimal notation.
pub fn hex_text(bytes: &Vec<u8>) -> (notation: String)
    ensures
        notation@ == hex(bytes@),
{
    let mut notation = String::new();
    let mut index: usize = 0;
    assert(bytes@.take(0) =~= Seq::<u8>::empty());
    while index < bytes.len()
        invariant
            index <= bytes@.len(),
            notation@ == hex(bytes@.take(index as int)),
        decreases bytes@.len() - index,
    {
        proof {
            assert(bytes@.take(index + 1).drop_last() =~= bytes@.take(index as int));
        }
        let byte = bytes[index];
        notation.push(hex_char(byte / 16));
        notation.push(hex_char(byte % 16));
        index += 1;
    }
    assert(bytes@.take(bytes@.len() as int) =~= bytes@);
    notation
}

/// Whether a text has the form of a key: sixty-four hexadecimal digits in small
/// letters.
pub open spec fn is_key(key: Seq<char>) -> bool {
    &&& key.len() == 64
    &&& forall|i: int|
        0 <= i < key.len() ==> {
            ||| '0' <= #[trigger] key[i] <= '9'
            ||| 'a' <= key[i] <= 'f'
        }
}

/// The key of a text.
pub fn key(name: &str) -> (key: String)
    ensures
        key@ == key_of(name@),
        is_key(key@),
{
    let digest = sha256_digest(name.as_bytes());
    proof {
        law_hex_is_plain(digest@);
    }
    hex_text(&digest)
}

/// The number below sixteen that a hexadecimal digit stands for.
pub open spec fn digit_value(digit: char) -> int {
    if '0' <= digit <= '9' {
        digit as u32 - '0' as u32
    } else {
        digit as u32 - 'a' as u32 + 10
    }
}

/// Hexadecimal notation can be read back: two digits make up each byte, the
/// first the sixteens.
pub proof fn law_hex_reads_back(bytes: Seq<u8>, place: int)
    requires
        0 <= place < bytes.len(),
    ensures
        16 * digit_value(hex(bytes)[2 * place]) + digit_value(hex(bytes)[2 * place + 1])
            == bytes[place],
    decreases bytes.len(),
{
    law_hex_is_plain(bytes.drop_last());
    let front = hex(bytes.drop_last());
    if place < bytes.len() - 1 {
        law_hex_reads_back(bytes.drop_last(), place);
        assert(hex(bytes)[2 * place] == front[2 * place]);
        assert(hex(bytes)[2 * place + 1] == front[2 * place + 1]);
    }
}

/// The key of a text is the notation of the digest of its encoding.
pub proof fn law_keys_are_digests(name: Seq<char>)
    ensures
        key_of(name) == hex(sha256(vstd::utf8::encode_utf8(name))),
{
}

/// A key is sixty-four characters long and holds nothing but decimal digits and
/// the letters from a to f, so that it can stand in the name of a file.
pub proof fn law_keys_are_hexadecimal(key: Seq<char>, place: int)
    requires
        is_key(key),
    ensures
        key.len() == 64,
        0 <= place < 64 ==> ('0' <= key[place] <= '9') || ('a' <= key[place] <= 'f'),
        !key.contains('/'),
        !key.contains('.'),
{
}

} // verus!
