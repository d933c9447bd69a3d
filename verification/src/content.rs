//! Content addressing: an object's name is the lowercase hexadecimal SHA-256
//! hash of its bytes.

use vstd::prelude::*;
use vstd::string::*;
use sha2::Digest;

verus! {

/// The SHA-256 hash of `data`.
pub uninterp spec fn sha256_digest(data: Seq<u8>) -> Seq<u8>;

/// Calls `sha2::Sha256::digest`.
///
/// Trusted: the result is the SHA-256 hash of `data`, a function of the
/// bytes alone, and it is 32 bytes long.
#[verifier::external_body]
fn sha256(data: &[u8]) -> (digest: Vec<u8>)
    ensures
        digest@ == sha256_digest(data@),
        digest@.len() == 32,
{
    sha2::Sha256::digest(data).to_vec()
}

/// The lowercase hexadecimal digit for a value below sixteen.
pub open spec fn hex_digit(nibble: int) -> char {
    if nibble == 0 {
        '0'
    } else if nibble == 1 {
        '1'
    } else if nibble == 2 {
        '2'
    } else if nibble == 3 {
        '3'
    } else if nibble == 4 {
        '4'
    } else if nibble == 5 {
        '5'
    } else if nibble == 6 {
        '6'
    } else if nibble == 7 {
        '7'
    } else if nibble == 8 {
        '8'
    } else if nibble == 9 {
        '9'
    } else if nibble == 10 {
        'a'
    } else if nibble == 11 {
        'b'
    } else if nibble == 12 {
        'c'
    } else if nibble == 13 {
        'd'
    } else if nibble == 14 {
        'e'
    } else {
        'f'
    }
}

/// Whether `c` is one of `0` to `9` or `a` to `f`.
pub open spec fn is_lower_hex(c: char) -> bool {
    exists|nibble: int| 0 <= nibble < 16 && c == #[trigger] hex_digit(nibble)
}

/// The lowercase hexadecimal text of `bytes`: two digits for each byte, the
/// high half first.
pub open spec fn hex_lower(bytes: Seq<u8>) -> Seq<char> {
    Seq::new(
        2 * bytes.len(),
        |at: int|
            if at % 2 == 0 {
                hex_digit(bytes[at / 2] as int / 16)
            } else {
                hex_digit(bytes[at / 2] as int % 16)
            },
    )
}

/// The name under which a repository stores `data`.
pub open spec fn content_name(data: Seq<u8>) -> Seq<char> {
    hex_lower(sha256_digest(data))
}

/// The one-character text of a hexadecimal digit.
fn digit_text(nibble: u8) -> (text: &'static str)
    requires
        nibble < 16,
    ensures
        text@ == seq![hex_digit(nibble as int)],
{
    proof {
        reveal_strlit("0");
        reveal_strlit("1");
        reveal_strlit("2");
        reveal_strlit("3");
        reveal_strlit("4");
        reveal_strlit("5");
        reveal_strlit("6");
        reveal_strlit("7");
        reveal_strlit("8");
        reveal_strlit("9");
        reveal_strlit("a");
        reveal_strlit("b");
        reveal_strlit("c");
        reveal_strlit("d");
        reveal_strlit("e");
        reveal_strlit("f");
    }
    let text = if nibble == 0 {
        "0"
    } else if nibble == 1 {
        "1"
    } else if nibble == 2 {
        "2"
    } else if nibble == 3 {
        "3"
    } else if nibble == 4 {
        "4"
    } else if nibble == 5 {
        "5"
    } else if nibble == 6 {
        "6"
    } else if nibble == 7 {
        "7"
    } else if nibble == 8 {
        "8"
    } else if nibble == 9 {
        "9"
    } else if nibble == 10 {
        "a"
    } else if nibble == 11 {
        "b"
    } else if nibble == 12 {
        "c"
    } else if nibble == 13 {
        "d"
    } else if nibble == 14 {
        "e"
    } else {
        "f"
    };
    text
}

/// Writes `bytes` as lowercase hexadecimal text.
pub fn to_hex(bytes: &[u8]) -> (text: String)
    ensures
        text@ == hex_lower(bytes@),
        text@.len() == 2 * bytes@.len(),
{
    let mut text = String::new();
    let count: usize = bytes.len();
    let mut at: usize = 0;
    while at < count
        invariant
            count == bytes@.len(),
            at <= count,
            text@ == hex_lower(bytes@.take(at as int)),
        decreases count - at,
    {
        let byte: u8 = bytes[at];
        let ghost before = text@;
        text.append(digit_text(byte / 16));
        text.append(digit_text(byte % 16));
        proof {
            let grown = hex_lower(bytes@.take(at + 1));
            let written = before + seq![hex_digit(byte as int / 16)] + seq![
                hex_digit(byte as int % 16),
            ];
            assert(grown.len() == written.len());
            assert forall|k: int| 0 <= k < grown.len() implies grown[k] == written[k] by {
                if k < 2 * at {
                    assert(bytes@.take(at + 1)[k / 2] == bytes@.take(at as int)[k / 2]);
                } else {
                    assert(k / 2 == at);
                    assert(bytes@.take(at + 1)[k / 2] == byte);
                }
            }
            assert(grown =~= written);
        }
        at += 1;
    }
    text
}

/// Whether `name` is the lowercase hexadecimal text of `digest`.
pub fn digest_is_named(digest: &[u8], name: &str) -> (matches: bool)
    ensures
        matches == (name@ == hex_lower(digest@)),
{
    let written = to_hex(digest);
    let claimed = String::from_str(name);
    written == claimed
}

/// The name under which a repository stores `data`: the lowercase
/// hexadecimal text of its SHA-256 hash, 64 characters long.
pub fn content_hash(data: &[u8]) -> (name: String)
    ensures
        name@ == content_name(data@),
        name@.len() == 64,
{
    let digest = sha256(data);
    to_hex(digest.as_slice())
}

/// Checks that `data` is the content that `name` stands for.
///
/// Returns `Ok` exactly when `name` is the content name of `data`, and
/// otherwise the name that `data` does have.
pub fn verify_content(name: &str, data: &[u8]) -> (checked: Result<(), String>)
    ensures
        checked is Ok <==> name@ == content_name(data@),
        checked matches Err(actual) ==> actual@ == content_name(data@),
        checked is Ok ==> name@.len() == 64,
{
    let digest = sha256(data);
    if digest_is_named(digest.as_slice(), name) {
        Ok(())
    } else {
        Err(to_hex(digest.as_slice()))
    }
}

/// Hexadecimal text has two characters for each byte, each of them a
/// lowercase hexadecimal digit.
pub proof fn lemma_hex_lower_shape(bytes: Seq<u8>)
    ensures
        hex_lower(bytes).len() == 2 * bytes.len(),
        forall|at: int|
            0 <= at < hex_lower(bytes).len() ==> is_lower_hex(#[trigger] hex_lower(bytes)[at]),
{
    assert forall|at: int| 0 <= at < hex_lower(bytes).len() implies is_lower_hex(
        #[trigger] hex_lower(bytes)[at],
    ) by {
        let byte = bytes[at / 2] as int;
        if at % 2 == 0 {
            assert(hex_lower(bytes)[at] == hex_digit(byte / 16));
        } else {
            assert(hex_lower(bytes)[at] == hex_digit(byte % 16));
        }
    }
}

/// Hexadecimal text determines the bytes: different bytes are never written
/// alike.
pub proof fn lemma_hex_lower_injective(left: Seq<u8>, right: Seq<u8>)
    requires
        hex_lower(left) == hex_lower(right),
    ensures
        left == right,
{
    assert(hex_lower(left).len() == 2 * left.len());
    assert(hex_lower(right).len() == 2 * right.len());
    assert forall|at: int| 0 <= at < left.len() implies left[at] == right[at] by {
        let high = hex_lower(left)[2 * at];
        let low = hex_lower(left)[2 * at + 1];
        assert(high == hex_lower(right)[2 * at]);
        assert(low == hex_lower(right)[2 * at + 1]);
        assert((2 * at) / 2 == at && (2 * at) % 2 == 0);
        assert((2 * at + 1) / 2 == at && (2 * at + 1) % 2 == 1);
        assert(high == hex_digit(left[at] as int / 16));
        assert(high == hex_digit(right[at] as int / 16));
        assert(low == hex_digit(left[at] as int % 16));
        assert(low == hex_digit(right[at] as int % 16));
    }
    assert(left =~= right);
}

} // verus!
