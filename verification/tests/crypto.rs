use passcrypt::{decrypt_token, encrypt_password, encrypt_then_decrypt, encrypt_token, DecryptError};

#[test]
fn round_trip_recovers_the_password() {
    for pw in [
        &b""[..],
        b"a",
        b"hello",
        b"exactly 16 bytes",
        b"a little longer than one block",
        b"\x00\x01\x02\xff\xfe\xfd",
    ] {
        let token = encrypt_token(pw);
        assert_eq!(decrypt_token(&token), Ok(pw.to_vec()));
        assert_eq!(encrypt_then_decrypt(pw), pw.to_vec());
    }
}

#[test]
fn same_password_same_ciphertext() {
    assert_eq!(encrypt_password(b"fixed iv"), encrypt_password(b"fixed iv"));
    assert_eq!(encrypt_token(b"fixed iv"), encrypt_token(b"fixed iv"));
}

#[test]
fn ciphertext_length_is_positive_multiple_of_block() {
    for n in 0..50usize {
        let pw = vec![0x61u8; n];
        let ct = encrypt_password(&pw);
        assert!(ct.len() % 16 == 0);
        assert!(ct.len() > 0);
        assert_eq!(ct.len(), (n / 16 + 1) * 16);
    }
}

#[test]
fn token_is_base64_of_the_ciphertext() {
    let ct = encrypt_password(b"hello");
    let token = encrypt_token(b"hello");
    assert_eq!(token, base64::encode(&ct).into_bytes());
    assert_eq!(base64::decode(&token).unwrap(), ct);
}

#[test]
fn ciphertext_differs_from_plaintext_and_between_passwords() {
    let a = encrypt_password(b"password one!!!!");
    let b = encrypt_password(b"password two!!!!");
    assert_ne!(a, b);
    assert_ne!(&a[..], b"password one!!!!");
}

#[test]
fn decrypt_rejects_bad_tokens() {
    assert_eq!(decrypt_token(b"%%% not base64 %%%"), Err(DecryptError::Encoding));
    let not_a_block = base64::encode(&[1u8, 2, 3]).into_bytes();
    assert_eq!(decrypt_token(&not_a_block), Err(DecryptError::Cipher));
}
