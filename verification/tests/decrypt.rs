use block_modes::BlockMode;
use slack_reader::decryptor::{
    account_candidates, recover_key, strip_version_prefix, token_from_plain, UnixCookieDecryptor,
};
use slack_reader::errors::SlackError;

type Aes128Cbc = block_modes::Cbc<aes::Aes128, block_modes::block_padding::NoPadding>;

fn derive_test_key(password: &[u8]) -> [u8; 16] {
    pbkdf2::pbkdf2_hmac_array::<sha1::Sha1, 16>(password, b"saltysalt", 1003)
}

fn encrypt_fixture(password: &[u8], plain: &[u8]) -> Vec<u8> {
    let key = derive_test_key(password);
    let iv = [b' '; 16];
    let cipher = Aes128Cbc::new_from_slices(&key, &iv).unwrap();
    cipher.encrypt_vec(plain)
}

#[test]
fn decrypt_round_trip_recovers_token() {
    // 20 payload bytes, then 12 padding bytes each holding the value 12.
    let mut plain: Vec<u8> = b"0123456789xoxd-token".to_vec();
    plain.extend(std::iter::repeat(12u8).take(12));
    assert_eq!(plain.len(), 32);
    let password = b"test-password";
    let ciphertext = encrypt_fixture(password, &plain);
    let decryptor = UnixCookieDecryptor::new(1003);
    let out = decryptor.decrypt(ciphertext, password).unwrap();
    assert_eq!(out, b"xoxd-token".to_vec());
}

#[test]
fn decrypt_rejects_padding_longer_than_buffer() {
    // One block whose last byte names 255 padding bytes.
    let mut plain: Vec<u8> = vec![0u8; 16];
    plain[15] = 255;
    let password = b"test-password";
    let ciphertext = encrypt_fixture(password, &plain);
    let decryptor = UnixCookieDecryptor::new(1003);
    assert_eq!(
        decryptor.decrypt(ciphertext, password),
        Err(SlackError::InvalidPadding)
    );
}

#[test]
fn decrypt_without_marker_fails() {
    let mut plain: Vec<u8> = b"0123456789abcdef".to_vec();
    plain[15] = 0;
    let password = b"pw";
    let ciphertext = encrypt_fixture(password, &plain);
    let decryptor = UnixCookieDecryptor::new(1003);
    assert_eq!(
        decryptor.decrypt(ciphertext, password),
        Err(SlackError::MarkerNotFound)
    );
}

#[test]
fn token_from_plain_empty_payload() {
    assert_eq!(token_from_plain(Vec::new()), Err(SlackError::EmptyPayload));
}

#[test]
fn token_from_plain_invalid_padding() {
    assert_eq!(
        token_from_plain(vec![1, 2, 200]),
        Err(SlackError::InvalidPadding)
    );
}

#[test]
fn token_from_plain_strips_padding_then_finds_marker() {
    let mut plain: Vec<u8> = b"ab xoxd-k".to_vec();
    plain.extend_from_slice(&[3, 3, 3]);
    assert_eq!(token_from_plain(plain), Ok(b"xoxd-k".to_vec()));
}

#[test]
fn token_from_plain_marker_inside_padding_is_not_found() {
    // The marker only counts if it survives the padding strip.
    let mut plain: Vec<u8> = b"abcd".to_vec();
    plain.extend_from_slice(b"xoxd-");
    plain.push(6);
    assert_eq!(token_from_plain(plain), Err(SlackError::MarkerNotFound));
}

#[test]
fn strip_version_prefix_drops_three_bytes() {
    let blob = vec![118, 49, 48, 9, 9, 9];
    assert_eq!(strip_version_prefix(blob), vec![9, 9, 9]);
}

#[test]
fn recover_key_takes_first_success() {
    let attempts = vec![None, Some(b"first".to_vec()), Some(b"second".to_vec())];
    assert_eq!(recover_key(attempts), Ok(b"first".to_vec()));
}

#[test]
fn recover_key_fails_when_all_candidates_fail() {
    let attempts: Vec<Option<Vec<u8>>> = vec![None, None, None];
    assert_eq!(recover_key(attempts), Err(SlackError::CredentialNotFound));
}

#[test]
fn account_candidates_in_documented_order() {
    let names = account_candidates();
    assert_eq!(names, vec!["Slack Key", "Slack", "Slack App Store Key"]);
}
