//! Block hashes as Bitcoin Core shows them: 64 hex digits, most significant
//! byte first, so the internal byte order reversed.
use vstd::prelude::*;

verus! {

/// Whether `c` is a hexadecimal digit, in either case.
pub open spec fn is_hex_digit(c: char) -> bool {
    ('0' <= c && c <= '9') || ('a' <= c && c <= 'f') || ('A' <= c && c <= 'F')
}

/// The value of the hexadecimal digit `c`.
pub open spec fn hex_value(c: char) -> int {
    if '0' <= c && c <= '9' {
        c as int - '0' as int
    } else if 'a' <= c && c <= 'f' {
        c as int - 'a' as int + 10
    } else {
        c as int - 'A' as int + 10
    }
}

/// The lower-case hexadecimal digit of `n`, for `0 <= n < 16`.
pub open spec fn lower_hex_digit(n: int) -> char {
    if n < 10 {
        ('0' as int + n) as char
    } else {
        ('a' as int + n - 10) as char
    }
}

/// Whether `s` is a block hash as shown: 64 hexadecimal digits.
pub open spec fn is_hash_hex(s: Seq<char>) -> bool {
    s.len() == 64 && forall|i: int| 0 <= i < 64 ==> is_hex_digit(#[trigger] s[i])
}

/// The hash, in internal byte order, that the 64 hex digits `s` show: digit
/// pair `k` from the left is byte `31 - k`.
pub open spec fn hash_of_hex(s: Seq<char>) -> Seq<u8> {
    Seq::new(32, |i: int| (16 * hex_value(s[62 - 2 * i]) + hex_value(s[63 - 2 * i])) as u8)
}

/// How a hash in internal byte order is shown: byte `31 - k/2` in two
/// lower-case hex digits, the high one first.
pub open spec fn hex_of_hash(hash: Seq<u8>) -> Seq<char> {
    Seq::new(
        64,
        |k: int|
            {
                let b = hash[31 - k / 2] as int;
                if k % 2 == 0 {
                    lower_hex_digit(b / 16)
                } else {
                    lower_hex_digit(b % 16)
                }
            },
    )
}

/// `bitcoin::BlockHash::from_str`. Its source (hex-conservative's
/// `FromHex for [u8; 32]`, then a reversal, since block hashes display
/// backwards) accepts exactly 64 bytes of hexadecimal digits in either case,
/// pairs them high digit first into bytes, and reverses the bytes.
#[verifier::external_body]
fn block_hash_from_str(s: &str) -> (hash: Option<[u8; 32]>)
    ensures
        hash is Some <==> is_hash_hex(s@),
        hash matches Some(h) ==> h@ == hash_of_hex(s@),
{
    match s.parse::<bitcoin::BlockHash>() {
        Ok(h) => Some(bitcoin::hashes::Hash::to_byte_array(h)),
        Err(_) => None,
    }
}

/// `bitcoin::BlockHash`'s `Display`. Its source writes the bytes reversed as
/// lower-case hex, two digits per byte, high digit first.
#[verifier::external_body]
fn block_hash_to_string(hash: &[u8; 32]) -> (s: String)
    ensures
        s@ == hex_of_hash(hash@),
{
    <bitcoin::BlockHash as bitcoin::hashes::Hash>::from_byte_array(*hash).to_string()
}

/// Reads a block hash as Bitcoin Core shows it, into internal byte order.
/// Fails unless `s` is 64 hexadecimal digits.
pub fn parse_block_hash(s: &str) -> (hash: Option<[u8; 32]>)
    ensures
        hash is Some <==> is_hash_hex(s@),
        hash matches Some(h) ==> h@ == hash_of_hex(s@),
{
    block_hash_from_str(s)
}

/// Shows a block hash, given in internal byte order, as Bitcoin Core does.
pub fn block_hash_hex(hash: &[u8; 32]) -> (s: String)
    ensures
        s@ == hex_of_hash(hash@),
{
    block_hash_to_string(hash)
}

/// Showing a hash and reading it back gives the same hash.
pub proof fn law_hash_hex_round_trip(hash: Seq<u8>)
    requires
        hash.len() == 32,
    ensures
        is_hash_hex(hex_of_hash(hash)),
        hash_of_hex(hex_of_hash(hash)) == hash,
{
    let s = hex_of_hash(hash);
    assert forall|k: int| 0 <= k < 64 implies is_hex_digit(#[trigger] s[k]) && hex_value(s[k]) == (
    if k % 2 == 0 {
        hash[31 - k / 2] as int / 16
    } else {
        hash[31 - k / 2] as int % 16
    }) by {
        let b = hash[31 - k / 2] as int;
        let n = if k % 2 == 0 {
            b / 16
        } else {
            b % 16
        };
        assert(0 <= n < 16);
    }
    assert forall|i: int| 0 <= i < 32 implies #[trigger] hash_of_hex(s)[i] == hash[i] by {
        assert((62 - 2 * i) % 2 == 0 && (62 - 2 * i) / 2 == 31 - i);
        assert((63 - 2 * i) % 2 == 1 && (63 - 2 * i) / 2 == 31 - i);
        let b = hash[i] as int;
        assert(16 * (b / 16) + b % 16 == b);
    }
    assert(hash_of_hex(s) =~= hash);
}

} // verus!
