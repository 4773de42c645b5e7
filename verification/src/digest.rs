//! Hashes and identifiers: MD5 (offline-account UUIDs), SHA-512 (mod file
//! identification) and the textual form of a UUID.
use vstd::prelude::*;
use sha2::Digest;
use vstd::string::StringSliceAdditionalSpecFns;

verus! {

/// MD5 digest of some bytes, as computed by the `md5` crate.
pub uninterp spec fn md5_spec(data: Seq<u8>) -> Seq<u8>;

/// SHA-512 digest of some bytes, as computed by the `sha2` crate.
pub uninterp spec fn sha512_spec(data: Seq<u8>) -> Seq<u8>;

/// `md5::compute`: the 16-byte MD5 digest of `data`. The contract names
/// the digest and says nothing of how it is computed.
#[verifier::external_body]
fn md5_digest(data: &[u8]) -> (r: [u8; 16])
    ensures
        r@ == md5_spec(data@),
{
    md5::compute(data).0
}

/// `sha2::Sha512::digest`: the SHA-512 digest of `data`, 64 bytes long
/// (the output size of SHA-512). The contract names the digest and says
/// nothing else of it.
#[verifier::external_body]
fn sha512_digest(data: &[u8]) -> (r: Vec<u8>)
    ensures
        r@ == sha512_spec(data@),
        r@.len() == 64,
{
    sha2::Sha512::digest(data).to_vec()
}

pub open spec fn hex_digit(n: int) -> char {
    if n == 0 {
        '0'
    } else if n == 1 {
        '1'
    } else if n == 2 {
        '2'
    } else if n == 3 {
        '3'
    } else if n == 4 {
        '4'
    } else if n == 5 {
        '5'
    } else if n == 6 {
        '6'
    } else if n == 7 {
        '7'
    } else if n == 8 {
        '8'
    } else if n == 9 {
        '9'
    } else if n == 10 {
        'a'
    } else if n == 11 {
        'b'
    } else if n == 12 {
        'c'
    } else if n == 13 {
        'd'
    } else if n == 14 {
        'e'
    } else {
        'f'
    }
}

/// Two lower-case hexadecimal digits per byte.
pub open spec fn hex_lower(b: Seq<u8>) -> Seq<char>
    decreases b.len(),
{
    if b.len() == 0 {
        Seq::empty()
    } else {
        hex_lower(b.drop_last()).push(hex_digit((b.last() / 16) as int)).push(hex_digit((b.last() % 16) as int))
    }
}

/// The hyphenated lower-case form of a UUID: 8-4-4-4-12 hex digits.
pub open spec fn hyphenated(b: Seq<u8>) -> Seq<char> {
    hex_lower(b.subrange(0, 4)) + "-"@ + hex_lower(b.subrange(4, 6)) + "-"@ + hex_lower(
        b.subrange(6, 8),
    ) + "-"@ + hex_lower(b.subrange(8, 10)) + "-"@ + hex_lower(b.subrange(10, 16))
}

/// `uuid::Uuid::from_bytes(..).to_string()`: the UUID with these 16 bytes
/// in its documented hyphenated lower-case form.
#[verifier::external_body]
fn uuid_string(bytes: &[u8; 16]) -> (r: String)
    ensures
        r@ == hyphenated(bytes@),
{
    uuid::Uuid::from_bytes(*bytes).to_string()
}

fn hex_char(n: u8) -> (c: char)
    requires
        n < 16,
    ensures
        c == hex_digit(n as int),
{
    if n == 0 {
        '0'
    } else if n == 1 {
        '1'
    } else if n == 2 {
        '2'
    } else if n == 3 {
        '3'
    } else if n == 4 {
        '4'
    } else if n == 5 {
        '5'
    } else if n == 6 {
        '6'
    } else if n == 7 {
        '7'
    } else if n == 8 {
        '8'
    } else if n == 9 {
        '9'
    } else if n == 10 {
        'a'
    } else if n == 11 {
        'b'
    } else if n == 12 {
        'c'
    } else if n == 13 {
        'd'
    } else if n == 14 {
        'e'
    } else {
        'f'
    }
}

/// Lower-case hexadecimal text of some bytes (`{:x}` of a digest).
pub fn to_hex_lower(b: &[u8]) -> (r: String)
    ensures
        r@ == hex_lower(b@),
{
    let mut out: Vec<char> = Vec::new();
    let mut i: usize = 0;
    while i < b.len()
        invariant
            i <= b.len(),
            out@ == hex_lower(b@.take(i as int)),
        decreases b.len() - i,
    {
        let x = b[i];
        assert(b@.take(i + 1).drop_last() =~= b@.take(i as int));
        assert(b@.take(i + 1).last() == x);
        out.push(hex_char(x / 16));
        out.push(hex_char(x % 16));
        i += 1;
    }
    assert(b@.take(b.len() as int) =~= b@);
    crate::text::string_of(&out)
}

/// Offline-mode UUID of a player name: the MD5 digest of its UTF-8
/// bytes, written as a UUID.
pub fn generate_uuid(username: &str) -> (r: String)
    ensures
        r@ == hyphenated(md5_spec(vstd::utf8::encode_utf8(username@))),
{
    let d = md5_digest(username.as_bytes());
    uuid_string(&d)
}

/// Lower-case hexadecimal SHA-512 of a file's bytes, the identifier the
/// Modrinth API looks mods up by.
pub fn sha512_hex(data: &[u8]) -> (r: String)
    ensures
        r@ == hex_lower(sha512_spec(data@)),
        r@.len() == 128,
{
    let d = sha512_digest(data);
    let r = to_hex_lower(d.as_slice());
    proof {
        lemma_hex_len(d@);
    }
    r
}

pub proof fn lemma_hex_len(b: Seq<u8>)
    ensures
        hex_lower(b).len() == 2 * b.len(),
    decreases b.len(),
{
    if b.len() > 0 {
        lemma_hex_len(b.drop_last());
    }
}

} // verus!
