//! Digests (through the `md-5` and `sha1` crates) and their hex and UUID
//! renderings.
use vstd::prelude::*;

verus! {

/// The MD5 digest of `data`, as the `md-5` crate computes it.
pub uninterp spec fn md5_digest(data: Seq<u8>) -> Seq<u8>;

/// The SHA-1 digest of `data`, as the `sha1` crate computes it.
pub uninterp spec fn sha1_digest(data: Seq<u8>) -> Seq<u8>;

/// Calls `md5::Md5::digest`. Claimed: the result is the digest named
/// `md5_digest(data)`, and it is 16 bytes long, as MD5 is a 128-bit digest.
#[verifier::external_body]
pub fn md5(data: &[u8]) -> (r: Vec<u8>)
    ensures
        r@ == md5_digest(data@),
        r@.len() == 16,
{
    <md5::Md5 as md5::Digest>::digest(data).to_vec()
}

/// Calls `sha1::Sha1::digest`. Claimed: the result is the digest named
/// `sha1_digest(data)`, and it is 20 bytes long, as SHA-1 is a 160-bit digest.
#[verifier::external_body]
pub fn sha1(data: &[u8]) -> (r: Vec<u8>)
    ensures
        r@ == sha1_digest(data@),
        r@.len() == 20,
{
    <sha1::Sha1 as sha1::Digest>::digest(data).to_vec()
}

/// The lower-case hex digit of a value below 16.
pub open spec fn hex_digit(v: int) -> char {
    if v < 10 {
        ((v + 48) as u32) as char
    } else {
        ((v + 87) as u32) as char
    }
}

/// Two lower-case hex digits per byte.
pub open spec fn hex_lower(bytes: Seq<u8>) -> Seq<char>
    decreases bytes.len(),
{
    if bytes.len() == 0 {
        Seq::empty()
    } else {
        hex_lower(bytes.drop_last()) + seq![
            hex_digit(bytes.last() as int / 16),
            hex_digit(bytes.last() as int % 16),
        ]
    }
}

fn hex_digit_exec(v: u8) -> (c: char)
    requires
        v < 16,
    ensures
        c == hex_digit(v as int),
{
    if v < 10 {
        (v + 48) as char
    } else {
        (v + 87) as char
    }
}

/// Appends the hex rendering of `bytes[from..to]` to `out`.
fn push_hex(out: &mut Vec<char>, bytes: &Vec<u8>, from: usize, to: usize)
    requires
        from <= to <= bytes.len(),
    ensures
        final(out)@ == old(out)@ + hex_lower(bytes@.subrange(from as int, to as int)),
{
    let mut i: usize = from;
    assert(bytes@.subrange(from as int, from as int) =~= Seq::<u8>::empty());
    while i < to
        invariant
            from <= i <= to <= bytes.len(),
            out@ == old(out)@ + hex_lower(bytes@.subrange(from as int, i as int)),
        decreases to - i,
    {
        let b = bytes[i];
        out.push(hex_digit_exec(b / 16));
        out.push(hex_digit_exec(b % 16));
        assert(bytes@.subrange(from as int, i + 1).drop_last() =~= bytes@.subrange(from as int, i as int));
        i = i + 1;
    }
}

/// The lower-case hex rendering of a digest.
pub fn hex_string(bytes: &Vec<u8>) -> (r: String)
    ensures
        r@ == hex_lower(bytes@),
{
    let mut out: Vec<char> = Vec::new();
    push_hex(&mut out, bytes, 0, bytes.len());
    assert(bytes@.subrange(0, bytes@.len() as int) =~= bytes@);
    string_from(&out)
}

fn string_from(v: &Vec<char>) -> (r: String)
    ensures
        r@ == v@,
{
    crate::text::string_from_chars(v.as_slice())
}

/// The lower-case hex SHA-1 of `data`.
pub fn sha1_hex(data: &[u8]) -> (r: String)
    ensures
        r@ == hex_lower(sha1_digest(data@)),
{
    let d = sha1(data);
    hex_string(&d)
}

/// The bytes of a name-based offline UUID: the MD5 of
/// `OfflinePlayer:<name>` with the version set to 3 and the RFC 4122 variant.
pub open spec fn offline_uuid_bytes(name: Seq<char>) -> Seq<u8> {
    let d = md5_digest(vstd::utf8::encode_utf8("OfflinePlayer:"@ + name));
    d.update(6, (d[6] & 0x0f) | 0x30).update(8, (d[8] & 0x3f) | 0x80)
}

/// The hyphenated lower-case rendering of a UUID: 8-4-4-4-12 hex digits.
pub open spec fn hyphenated(b: Seq<u8>) -> Seq<char> {
    hex_lower(b.subrange(0, 4)) + seq!['-'] + hex_lower(b.subrange(4, 6)) + seq!['-'] + hex_lower(
        b.subrange(6, 8),
    ) + seq!['-'] + hex_lower(b.subrange(8, 10)) + seq!['-'] + hex_lower(b.subrange(10, 16))
}

/// The offline-mode UUID of a player name: a version 3 (name-based, MD5)
/// UUID of the RFC 4122 variant, whatever the name.
pub fn offline_uuid(username: &str) -> (r: Vec<u8>)
    ensures
        r@ == offline_uuid_bytes(username@),
        r@.len() == 16,
        r@[6] >> 4u8 == 3,
        r@[8] >> 6u8 == 2,
{
    let mut text = String::from_str("OfflinePlayer:");
    text.append(username);
    let mut d = md5(text.as_str().as_bytes());
    let x6 = d[6];
    let b6 = (x6 & 0x0f) | 0x30;
    d.set(6, b6);
    let x8 = d[8];
    let b8 = (x8 & 0x3f) | 0x80;
    d.set(8, b8);
    assert(b6 >> 4u8 == 3) by (bit_vector)
        requires
            b6 == (x6 & 0x0f) | 0x30,
    ;
    assert(b8 >> 6u8 == 2) by (bit_vector)
        requires
            b8 == (x8 & 0x3f) | 0x80,
    ;
    d
}

/// `Uuid::hyphenated().to_string()` for the 16 bytes of a UUID.
pub fn uuid_hyphenated(b: &Vec<u8>) -> (r: String)
    requires
        b@.len() == 16,
    ensures
        r@ == hyphenated(b@),
{
    let mut out: Vec<char> = Vec::new();
    push_hex(&mut out, b, 0, 4);
    out.push('-');
    push_hex(&mut out, b, 4, 6);
    out.push('-');
    push_hex(&mut out, b, 6, 8);
    out.push('-');
    push_hex(&mut out, b, 8, 10);
    out.push('-');
    push_hex(&mut out, b, 10, 16);
    string_from(&out)
}

} // verus!
