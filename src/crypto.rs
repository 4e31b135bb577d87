//! The initialisation vector of an encrypted post and its AES-256-CBC
//! decryption.
use std::hash::Hasher;
use vstd::prelude::*;
use vstd::utf8::{decode_utf8, encode_utf8, valid_utf8};

verus! {

pub open spec fn fnv_step(h: u64, b: u8) -> u64 {
    (((h ^ (b as u64)) as int * 0x100000001b3int) % 0x1_0000_0000_0000_0000int) as u64
}

/// The 64-bit FNV-1a digest of `s`.
pub open spec fn fnv1a_spec(s: Seq<u8>) -> u64
    decreases s.len(),
{
    if s.len() == 0 {
        0xcbf29ce484222325u64
    } else {
        fnv_step(fnv1a_spec(s.drop_last()), s.last())
    }
}

/// Relies on `fnv::FnvHasher`: it starts from the FNV offset basis and, for
/// each byte written, xors it in and multiplies by the FNV prime, wrapping.
#[verifier::external_body]
fn fnv1a(bytes: &[u8]) -> (r: u64)
    ensures
        r == fnv1a_spec(bytes@),
{
    let mut hasher = fnv::FnvHasher::default();
    hasher.write(bytes);
    hasher.finish()
}

/// The eight bytes of `h`, most significant first.
pub open spec fn be_bytes(h: u64) -> Seq<u8> {
    seq![
        (h / 0x100000000000000) as u8,
        ((h / 0x1000000000000) % 256) as u8,
        ((h / 0x10000000000) % 256) as u8,
        ((h / 0x100000000) % 256) as u8,
        ((h / 0x1000000) % 256) as u8,
        ((h / 0x10000) % 256) as u8,
        ((h / 0x100) % 256) as u8,
        (h % 256) as u8,
    ]
}

/// The vector for `prefix` and `session`: the FNV-1a digest of their UTF-8
/// bytes, written twice, most significant byte first.
pub open spec fn iv_spec(prefix: Seq<char>, session: Seq<char>) -> Seq<u8> {
    let h = fnv1a_spec(encode_utf8(prefix + session));
    be_bytes(h) + be_bytes(h)
}

fn push_be(buf: &mut Vec<u8>, h: u64)
    ensures
        final(buf)@ == old(buf)@ + be_bytes(h),
{
    buf.push((h / 0x100000000000000) as u8);
    buf.push(((h / 0x1000000000000) % 256) as u8);
    buf.push(((h / 0x10000000000) % 256) as u8);
    buf.push(((h / 0x100000000) % 256) as u8);
    buf.push(((h / 0x1000000) % 256) as u8);
    buf.push(((h / 0x10000) % 256) as u8);
    buf.push(((h / 0x100) % 256) as u8);
    buf.push((h % 256) as u8);
    assert(buf@ =~= old(buf)@ + be_bytes(h));
}

/// The 16-byte initialisation vector for `uuid` under `iv_prefix`.
pub fn get_iv(iv_prefix: &str, uuid: &str) -> (r: Vec<u8>)
    ensures
        r@ == iv_spec(iv_prefix@, uuid@),
        r@.len() == 16,
{
    let joined = String::from_str(iv_prefix).concat(uuid);
    let hash = fnv1a(joined.as_str().as_bytes());
    let mut buf: Vec<u8> = Vec::new();
    push_be(&mut buf, hash);
    push_be(&mut buf, hash);
    assert(buf@ =~= iv_spec(iv_prefix@, uuid@));
    buf
}

pub open spec fn hex_digit(c: char) -> Option<u8> {
    if '0' <= c && c <= '9' {
        Some(((c as int) - ('0' as int)) as u8)
    } else if 'a' <= c && c <= 'f' {
        Some(((c as int) - ('a' as int) + 10) as u8)
    } else if 'A' <= c && c <= 'F' {
        Some(((c as int) - ('A' as int) + 10) as u8)
    } else {
        None
    }
}

/// The bytes that hexadecimal text spells, two digits a byte.
pub open spec fn hex_decode_spec(s: Seq<char>) -> Option<Seq<u8>>
    decreases s.len(),
{
    if s.len() == 0 {
        Some(Seq::<u8>::empty())
    } else if s.len() == 1 {
        None
    } else {
        match (hex_digit(s[0]), hex_digit(s[1]), hex_decode_spec(s.skip(2))) {
            (Some(a), Some(b), Some(rest)) => Some(seq![(a * 16 + b) as u8] + rest),
            _ => None,
        }
    }
}

/// Relies on `hex::decode`: pairs of hexadecimal digits, either case, to
/// bytes; an error on an odd length or any other character.
#[verifier::external_body]
pub(crate) fn hex_decode(s: &str) -> (r: Option<Vec<u8>>)
    ensures
        match r {
            Some(v) => hex_decode_spec(s@) == Some(v@),
            None => hex_decode_spec(s@) is None,
        },
{
    hex::decode(s).ok()
}

/// What AES-256-CBC decryption with PKCS#7 padding gives.
pub uninterp spec fn aes_256_cbc_plain(key: Seq<u8>, iv: Seq<u8>, data: Seq<u8>) -> Option<Seq<u8>>;

/// The largest ciphertext handed to the cipher.
pub const MAX_CIPHERTEXT: usize = 0x4000_0000;

/// Relies on `openssl::symm::decrypt` with `Cipher::aes_256_cbc()`: the
/// plaintext is a function of key, vector and ciphertext, and with the
/// cipher's key and vector lengths it fails only where the ciphertext is
/// not whole blocks or its padding is bad. It panics without a vector; the
/// length bound keeps the sizes within a C `int`.
#[verifier::external_body]
fn aes_decrypt(key: &[u8], iv: &[u8], data: &[u8]) -> (r: Option<Vec<u8>>)
    requires
        key@.len() == 32,
        iv@.len() == 16,
        data@.len() <= MAX_CIPHERTEXT,
    ensures
        r matches Some(v) ==> aes_256_cbc_plain(key@, iv@, data@) == Some(v@),
        r is None ==> aes_256_cbc_plain(key@, iv@, data@) is None,
{
    openssl::symm::decrypt(openssl::symm::Cipher::aes_256_cbc(), key, Some(iv), data).ok()
}

/// Relies on `String::from_utf8`: it succeeds exactly on valid UTF-8 and
/// then holds the characters that the bytes encode.
#[verifier::external_body]
fn utf8_string(b: Vec<u8>) -> (r: Option<String>)
    ensures
        match r {
            Some(s) => valid_utf8(b@) && s@ == decode_utf8(b@),
            None => !valid_utf8(b@),
        },
{
    String::from_utf8(b).ok()
}

#[derive(Debug, Clone, Copy, PartialEq, Eq)]
pub enum DecryptError {
    /// The ciphertext is not hexadecimal.
    InvalidHex,
    /// The key is not 32 bytes.
    KeyLength,
    /// The vector is not 16 bytes.
    IvLength,
    /// The ciphertext is longer than the cipher is handed.
    TooLong,
    /// The cipher refused it (wrong key or bad padding).
    Cipher,
    /// The plaintext is not UTF-8.
    NotUtf8,
}

/// What must hold of the inputs before the cipher runs, and the ciphertext.
pub open spec fn decrypt_input(hextext: Seq<char>, key: Seq<u8>, iv: Seq<u8>) -> Result<
    Seq<u8>,
    DecryptError,
> {
    match hex_decode_spec(hextext) {
        None => Err(DecryptError::InvalidHex),
        Some(data) => {
            if key.len() != 32 {
                Err(DecryptError::KeyLength)
            } else if iv.len() != 16 {
                Err(DecryptError::IvLength)
            } else if data.len() > MAX_CIPHERTEXT {
                Err(DecryptError::TooLong)
            } else {
                Ok(data)
            }
        },
    }
}

/// Whether `r` is what decrypting `hextext` with `key` and `iv` may give:
/// an error on bad input; else the text that the plaintext encodes, an
/// error where it is not UTF-8, or a refusal where the cipher gives no
/// plaintext.
pub open spec fn decryption_of(
    hextext: Seq<char>,
    key: Seq<u8>,
    iv: Seq<u8>,
    r: Result<Seq<char>, DecryptError>,
) -> bool {
    match decrypt_input(hextext, key, iv) {
        Err(e) => r == Err::<Seq<char>, DecryptError>(e),
        Ok(data) => match r {
            Ok(s) => exists|p: Seq<u8>|
                aes_256_cbc_plain(key, iv, data) == Some(p) && valid_utf8(p) && s == decode_utf8(p),
            Err(DecryptError::NotUtf8) => exists|p: Seq<u8>|
                aes_256_cbc_plain(key, iv, data) == Some(p) && !valid_utf8(p),
            Err(e) => e == DecryptError::Cipher && aes_256_cbc_plain(key, iv, data) is None,
        },
    }
}

pub open spec fn text_result(r: Result<String, DecryptError>) -> Result<Seq<char>, DecryptError> {
    match r {
        Ok(s) => Ok(s@),
        Err(e) => Err(e),
    }
}

/// AES-256-CBC decryption of hexadecimal ciphertext to text.
pub fn decrypt_aes_256_cbc(hextext: &str, key: &[u8], iv: &[u8]) -> (r: Result<String, DecryptError>)
    ensures
        decryption_of(hextext@, key@, iv@, text_result(r)),
{
    let text = match hex_decode(hextext) {
        Some(t) => t,
        None => return Err(DecryptError::InvalidHex),
    };
    if key.len() != 32 {
        return Err(DecryptError::KeyLength);
    }
    if iv.len() != 16 {
        return Err(DecryptError::IvLength);
    }
    if text.len() > MAX_CIPHERTEXT {
        return Err(DecryptError::TooLong);
    }
    let plain = match aes_decrypt(key, iv, text.as_slice()) {
        Some(p) => p,
        None => return Err(DecryptError::Cipher),
    };
    match utf8_string(plain) {
        Some(s) => Ok(s),
        None => Err(DecryptError::NotUtf8),
    }
}

} // verus!
