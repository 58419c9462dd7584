//! Recovering the session cookie: PBKDF2 key derivation, AES-128-CBC
//! decryption, manual padding removal and the scan for the token marker.
//!
//! The two cryptographic transforms come from outside crates and are relied
//! on through trusted wrappers; everything from the decrypted bytes onward is
//! verified.

use block_modes::BlockMode;
use vstd::prelude::*;

use crate::errors::SlackError;
use crate::text::{find_bytes, first_match_from};

verus! {

/// The 16-byte key PBKDF2-HMAC-SHA1 derives from a password, a salt and an
/// iteration count. The result depends on the arguments alone.
pub uninterp spec fn pbkdf2_sha1_key16(password: Seq<u8>, salt: Seq<u8>, rounds: u32) -> Seq<u8>;

/// The bytes AES-128 in CBC mode deciphers a buffer to, under a 16-byte key
/// and a 16-byte initialization vector. The result depends on the arguments
/// alone.
pub uninterp spec fn aes128_cbc_plain(key: Seq<u8>, iv: Seq<u8>, ciphertext: Seq<u8>) -> Seq<u8>;

/// Relies on `pbkdf2::pbkdf2_hmac_array::<sha1::Sha1, 16>`: derives a 16-byte
/// key, a pure function of password, salt and round count.
#[verifier::external_body]
fn derive_key16(password: &[u8], salt: &[u8], rounds: u32) -> (r: Vec<u8>)
    ensures
        r@ == pbkdf2_sha1_key16(password@, salt@, rounds),
        r@.len() == 16,
{
    pbkdf2::pbkdf2_hmac_array::<sha1::Sha1, 16>(password, salt, rounds).to_vec()
}

/// Relies on `block_modes::Cbc::<aes::Aes128, NoPadding>`: `new_from_slices`
/// accepts a 16-byte key and 16-byte IV, and `decrypt_vec` succeeds exactly
/// when the buffer length is a multiple of the 16-byte block, returning one
/// byte per input byte (no padding scheme is applied).
#[verifier::external_body]
fn aes128_cbc_decrypt(key: &Vec<u8>, iv: &Vec<u8>, ciphertext: &Vec<u8>) -> (r: Option<Vec<u8>>)
    requires
        key@.len() == 16,
        iv@.len() == 16,
    ensures
        r is Some <==> ciphertext@.len() % 16 == 0,
        r matches Some(p) ==> p@ == aes128_cbc_plain(key@, iv@, ciphertext@) && p@.len()
            == ciphertext@.len(),
{
    let cipher = match block_modes::Cbc::<aes::Aes128, block_modes::block_padding::NoPadding>::new_from_slices(
        key,
        iv,
    ) {
        Ok(c) => c,
        Err(_) => return None,
    };
    match cipher.decrypt_vec(ciphertext) {
        Ok(p) => Some(p),
        Err(_) => None,
    }
}

/// The fixed key-derivation salt, `"saltysalt"` as bytes.
pub open spec fn spec_salt() -> Seq<u8> {
    seq![115u8, 97u8, 108u8, 116u8, 121u8, 115u8, 97u8, 108u8, 116u8]
}

/// Builds the fixed salt.
fn salty_salt() -> (s: Vec<u8>)
    ensures
        s@ == spec_salt(),
{
    let mut s: Vec<u8> = Vec::new();
    s.push(115);
    s.push(97);
    s.push(108);
    s.push(116);
    s.push(121);
    s.push(115);
    s.push(97);
    s.push(108);
    s.push(116);
    proof {
        assert(s@ =~= spec_salt());
    }
    s
}

/// The fixed initialization vector: sixteen space bytes.
pub open spec fn spec_iv() -> Seq<u8> {
    Seq::new(16, |i: int| 32u8)
}

/// Builds the fixed initialization vector.
fn space_iv() -> (s: Vec<u8>)
    ensures
        s@ == spec_iv(),
{
    let mut s: Vec<u8> = Vec::new();
    let mut i: usize = 0;
    while i < 16
        invariant
            0 <= i <= 16,
            s@.len() == i,
            forall|j: int| 0 <= j < i ==> s@[j] == 32u8,
        decreases 16 - i,
    {
        s.push(32);
        i += 1;
    }
    proof {
        assert(s@ =~= spec_iv());
    }
    s
}

/// The marker that starts the session token, `"xoxd-"` as bytes.
pub open spec fn spec_marker() -> Seq<u8> {
    seq![120u8, 111u8, 120u8, 100u8, 45u8]
}

/// Builds the marker.
fn marker_bytes() -> (m: Vec<u8>)
    ensures
        m@ == spec_marker(),
{
    let mut m: Vec<u8> = Vec::new();
    m.push(120);
    m.push(111);
    m.push(120);
    m.push(100);
    m.push(45);
    proof {
        assert(m@ =~= spec_marker());
    }
    m
}

/// What the padding strip and marker scan make of decrypted bytes: the token
/// from the marker onward, or the exact error for each malformed shape.
pub open spec fn spec_extract_token(plain: Seq<u8>) -> Result<Seq<u8>, SlackError> {
    if plain.len() == 0 {
        Result::Err(SlackError::EmptyPayload)
    } else if plain.last() > plain.len() {
        Result::Err(SlackError::InvalidPadding)
    } else {
        let stripped = plain.take(plain.len() - plain.last());
        match first_match_from(stripped, spec_marker(), 0) {
            Option::Some(i) => Result::Ok(stripped.skip(i)),
            Option::None => Result::Err(SlackError::MarkerNotFound),
        }
    }
}

/// Strips the padding named by the last decrypted byte, then returns the
/// subsequence starting at the `"xoxd-"` marker.
///
/// Fails with `EmptyPayload` on an empty buffer, with `InvalidPadding` when
/// the last byte names more padding than the buffer holds, and with
/// `MarkerNotFound` when the marker never occurs — exactly the cases of
/// `spec_extract_token`.
pub fn token_from_plain(plain: Vec<u8>) -> (r: Result<Vec<u8>, SlackError>)
    ensures
        match r {
            Result::Ok(t) => spec_extract_token(plain@) == Result::<Seq<u8>, SlackError>::Ok(t@),
            Result::Err(e) => spec_extract_token(plain@) == Result::<Seq<u8>, SlackError>::Err(e),
        },
{
    let n = plain.len();
    if n == 0 {
        return Result::Err(SlackError::EmptyPayload);
    }
    let pad = plain[n - 1] as usize;
    if pad > n {
        return Result::Err(SlackError::InvalidPadding);
    }
    let mut stripped = plain;
    stripped.truncate(n - pad);
    let marker = marker_bytes();
    match find_bytes(&stripped, &marker) {
        Option::Some(i) => {
            let token = stripped.split_off(i);
            Result::Ok(token)
        },
        Option::None => Result::Err(SlackError::MarkerNotFound),
    }
}

/// What decryption makes of a stored cookie blob: a cipher failure on a
/// buffer that is not whole blocks, otherwise the token extraction applied
/// to the deciphered bytes.
pub open spec fn spec_decrypt(ciphertext: Seq<u8>, key: Seq<u8>, rounds: u32) -> Result<
    Seq<u8>,
    SlackError,
> {
    if ciphertext.len() % 16 != 0 {
        Result::Err(SlackError::DecodeError)
    } else {
        spec_extract_token(
            aes128_cbc_plain(
                pbkdf2_sha1_key16(key, spec_salt(), rounds),
                spec_iv(),
                ciphertext,
            ),
        )
    }
}

/// Decrypts the cookie blobs the desktop client stores on disk.
#[derive(Debug)]
pub struct UnixCookieDecryptor {
    pub rounds: u32,
}

impl UnixCookieDecryptor {
    /// A decryptor that derives its key with the given iteration count.
    pub fn new(rounds: u32) -> (r: Self)
        ensures
            r.rounds == rounds,
    {
        Self { rounds }
    }

    /// Derives the 16-byte key from `key` with the fixed salt, deciphers
    /// `value` with the fixed all-space IV, strips the manual padding and
    /// returns the bytes from the `"xoxd-"` marker onward.
    pub fn decrypt(&self, value: Vec<u8>, key: &[u8]) -> (r: Result<Vec<u8>, SlackError>)
        ensures
            match r {
                Result::Ok(t) => spec_decrypt(value@, key@, self.rounds) == Result::<
                    Seq<u8>,
                    SlackError,
                >::Ok(t@),
                Result::Err(e) => spec_decrypt(value@, key@, self.rounds) == Result::<
                    Seq<u8>,
                    SlackError,
                >::Err(e),
            },
    {
        let salt = salty_salt();
        let derived = derive_key16(key, salt.as_slice(), self.rounds);
        let iv = space_iv();
        match aes128_cbc_decrypt(&derived, &iv, &value) {
            Option::Some(plain) => token_from_plain(plain),
            Option::None => Result::Err(SlackError::DecodeError),
        }
    }
}

/// Strips the fixed 3-byte version prefix from a raw encrypted blob read
/// from the cookie store.
pub fn strip_version_prefix(blob: Vec<u8>) -> (r: Vec<u8>)
    requires
        blob@.len() >= 3,
    ensures
        r@ == blob@.skip(3),
{
    let mut b = blob;
    let tail = b.split_off(3);
    tail
}

/// The three account names under which the desktop client may have stored
/// its safe-storage password, in the order they are tried.
pub fn account_candidates() -> (v: Vec<&'static str>)
    ensures
        v@.len() == 3,
        v@[0]@ == "Slack Key"@,
        v@[1]@ == "Slack"@,
        v@[2]@ == "Slack App Store Key"@,
{
    let mut v: Vec<&'static str> = Vec::new();
    v.push("Slack Key");
    v.push("Slack");
    v.push("Slack App Store Key");
    v
}

/// What trying the secret store over each candidate yields: the first
/// successful secret, or `CredentialNotFound` when every candidate failed.
pub open spec fn spec_recover_key(attempts: Seq<Option<Vec<u8>>>) -> Result<Vec<u8>, SlackError>
    decreases attempts.len(),
{
    if attempts.len() == 0 {
        Result::Err(SlackError::CredentialNotFound)
    } else {
        match attempts[0] {
            Option::Some(secret) => Result::Ok(secret),
            Option::None => spec_recover_key(attempts.drop_first()),
        }
    }
}

/// Picks the first successful secret-store answer, in candidate order.
#[verifier::loop_isolation(false)]
pub fn recover_key(attempts: Vec<Option<Vec<u8>>>) -> (r: Result<Vec<u8>, SlackError>)
    ensures
        r == spec_recover_key(attempts@),
{
    let ghost orig = attempts@;
    let mut rest = attempts;
    while rest.len() > 0
        invariant
            spec_recover_key(orig) == spec_recover_key(rest@),
        decreases rest@.len(),
    {
        let ghost before = rest@;
        match rest.remove(0) {
            Option::Some(secret) => {
                proof {
                    assert(before.len() > 0);
                    assert(before[0] == Option::Some(secret));
                    assert(spec_recover_key(before) == Result::<Vec<u8>, SlackError>::Ok(secret));
                }
                return Result::Ok(secret);
            },
            Option::None => {
                proof {
                    assert(rest@ =~= before.drop_first());
                }
            },
        }
    }
    Result::Err(SlackError::CredentialNotFound)
}

} // verus!
