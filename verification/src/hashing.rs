//! Module digests and gossip topic identities.
//!
//! Guest modules are addressed by the lowercase hexadecimal rendering of
//! their 32-byte digest; gossip topics are identified by the digest of the
//! topic name.

use vstd::prelude::*;
use vstd::string::StringExecFns;
use vstd::string::StringSliceAdditionalSpecFns;
use vstd::utf8::encode_utf8;

verus! {

/// The digest that `blake3::hash` returns for the given input bytes.
pub uninterp spec fn blake3_of(bytes: Seq<u8>) -> Seq<u8>;

/// Relies on `blake3::hash`: a 32-byte digest computed from the input
/// bytes alone.
#[verifier::external_body]
fn blake3_digest(bytes: &[u8]) -> (r: Vec<u8>)
    ensures
        r@ == blake3_of(bytes@),
        r@.len() == 32,
{
    blake3::hash(bytes).as_bytes().to_vec()
}

/// The sixteen lowercase hexadecimal digits, by value.
pub open spec fn hex_digit(n: int) -> char {
    seq!['0', '1', '2', '3', '4', '5', '6', '7', '8', '9', 'a', 'b', 'c', 'd', 'e', 'f'][n]
}

/// The lowercase hexadecimal rendering of a byte sequence, two digits per
/// byte, high nibble first.
pub open spec fn hex_of(bytes: Seq<u8>) -> Seq<char> {
    Seq::new(
        bytes.len() * 2,
        |i: int|
            if i % 2 == 0 {
                hex_digit(bytes[i / 2] as int / 16)
            } else {
                hex_digit(bytes[i / 2] as int % 16)
            },
    )
}

/// The module hash recorded in the catalog: the lowercase hexadecimal
/// rendering of the digest of the module bytes.
pub open spec fn blake3_hex_of(bytes: Seq<u8>) -> Seq<char> {
    hex_of(blake3_of(bytes))
}

/// The identity of a gossip topic: the digest of the topic name.
pub open spec fn topic_id_of(name: Seq<char>) -> Seq<u8> {
    blake3_of(encode_utf8(name))
}

pub(crate) fn hex_digit_str(n: u8) -> (r: &'static str)
    requires
        n < 16,
    ensures
        r@ =~= seq![hex_digit(n as int)],
{
    proof {
        reveal_strlit("0");
        reveal_strlit("1");
        reveal_strlit("2");
        reveal_strlit("3");
        reveal_strlit("4");
        reveal_strlit("5");
        reveal_strlit("6");
        reveal_strlit("7");
        reveal_strlit("8");
        reveal_strlit("9");
        reveal_strlit("a");
        reveal_strlit("b");
        reveal_strlit("c");
        reveal_strlit("d");
        reveal_strlit("e");
        reveal_strlit("f");
    }
    match n {
        0 => "0",
        1 => "1",
        2 => "2",
        3 => "3",
        4 => "4",
        5 => "5",
        6 => "6",
        7 => "7",
        8 => "8",
        9 => "9",
        10 => "a",
        11 => "b",
        12 => "c",
        13 => "d",
        14 => "e",
        _ => "f",
    }
}

/// Render a byte sequence in lowercase hexadecimal.
pub fn hex_lower(bytes: &[u8]) -> (r: String)
    ensures
        r@ == hex_of(bytes@),
{
    let mut s = String::new();
    let n = bytes.len();
    for i in 0..n
        invariant
            n == bytes@.len(),
            s@ == hex_of(bytes@.subrange(0, i as int)),
    {
        let b = bytes[i];
        let hi: u8 = b >> 4;
        let lo: u8 = b & 15;
        proof {
            assert(hi == b as int / 16 && hi < 16 && lo == b as int % 16 && lo < 16) by (bit_vector)
                requires
                    hi == b >> 4 && lo == b & 15,
            ;
        }
        s.append(hex_digit_str(hi));
        s.append(hex_digit_str(lo));
        proof {
            assert(s@ =~= hex_of(bytes@.subrange(0, i + 1 as int)));
        }
    }
    proof {
        assert(bytes@.subrange(0, bytes@.len() as int) =~= bytes@);
    }
    s
}

/// The module hash of the given module bytes: lowercase hexadecimal of the
/// 32-byte digest, 64 characters.
pub fn blake3_hex(bytes: &[u8]) -> (r: String)
    ensures
        r@ == blake3_hex_of(bytes@),
        r@.len() == 64,
{
    let digest = blake3_digest(bytes);
    hex_lower(digest.as_slice())
}

/// The identity of the topic with the given name.
pub fn topic_id(name: &str) -> (r: Vec<u8>)
    ensures
        r@ == topic_id_of(name@),
        r@.len() == 32,
{
    blake3_digest(name.as_bytes())
}

/// The identity of the well-known global gossip topic.
pub fn global_topic_id() -> (r: Vec<u8>)
    ensures
        r@ == topic_id_of("fern-global"@),
        r@.len() == 32,
{
    topic_id("fern-global")
}

} // verus!
