use megacore::crypto::{
    bin_to_i32a, bin_to_url_base64, calculate_cbc_mac, decrypt_aes_cbc, decrypt_aes_ctr,
    decrypt_file_attributes, decrypt_key, decrypt_mega_chunk, decrypt_mega_file, derive_key,
    encrypt_aes_cbc, encrypt_aes_ctr, i32a_to_bin, rsa_decrypt, url_base64_to_bin,
    verify_file_integrity, verify_mac, CryptoError, MEGA_CHUNK_SIZE,
};

fn hex(s: &str) -> Vec<u8> {
    (0..s.len())
        .step_by(2)
        .map(|i| u8::from_str_radix(&s[i..i + 2], 16).unwrap())
        .collect()
}

const FILE_KEY_48: &str = "AAECAwQFBgcICQoLDA0ODxAREhMUFRYXGBkaGxwdHh8J9w9wFdc0LJyL8sE8nrtu";
const SAMPLE: &[u8] = b"hello mega world, this is a test file of some length!!";

#[test]
fn words_from_bytes_big_endian() {
    assert_eq!(bin_to_i32a(&[0x01, 0x02, 0x03, 0x04, 0xff, 0xee, 0xdd, 0xcc]), vec![0x01020304, 0xffeeddcc]);
}

#[test]
fn words_drop_trailing_partial_word() {
    assert_eq!(bin_to_i32a(&[0, 0, 0, 7, 9, 9, 9]), vec![7]);
    assert_eq!(bin_to_i32a(&[1, 2, 3]), Vec::<u32>::new());
    assert_eq!(bin_to_i32a(&[]), Vec::<u32>::new());
}

#[test]
fn bytes_from_words_big_endian() {
    assert_eq!(i32a_to_bin(&[0x01020304, 0xa0b0c0d0]), vec![1, 2, 3, 4, 0xa0, 0xb0, 0xc0, 0xd0]);
    assert_eq!(i32a_to_bin(&[]), Vec::<u8>::new());
}

#[test]
fn words_round_trip() {
    let words = vec![0u32, 1, 0xdeadbeef, u32::MAX, 0x00ff00ff];
    assert_eq!(bin_to_i32a(&i32a_to_bin(&words)), words);
}

#[test]
fn bytes_round_trip_keeps_whole_words() {
    let bytes: Vec<u8> = (0u8..11).collect();
    assert_eq!(i32a_to_bin(&bin_to_i32a(&bytes)), bytes[..8].to_vec());
}

#[test]
fn url_base64_encodes_without_padding() {
    assert_eq!(bin_to_url_base64(&[0xfb, 0xff]), "-_8");
    assert_eq!(bin_to_url_base64(&[0xfb, 0xef, 0xbe]), "----");
    assert_eq!(bin_to_url_base64(b"hello"), "aGVsbG8");
    assert_eq!(bin_to_url_base64(&[]), "");
}

#[test]
fn url_base64_decodes_url_alphabet() {
    assert_eq!(url_base64_to_bin("----").unwrap(), vec![0xfb, 0xef, 0xbe]);
    assert_eq!(url_base64_to_bin("-_8=").unwrap(), vec![0xfb, 0xff]);
    assert_eq!(url_base64_to_bin("aGVsbG8=").unwrap(), b"hello".to_vec());
}

#[test]
fn url_base64_decodes_without_padding() {
    assert_eq!(url_base64_to_bin("aGVsbG8").unwrap(), b"hello".to_vec());
    assert_eq!(url_base64_to_bin("-_8").unwrap(), vec![0xfb, 0xff]);
    assert_eq!(url_base64_to_bin("").unwrap(), Vec::<u8>::new());
}

#[test]
fn url_base64_rejects_bad_text() {
    assert_eq!(url_base64_to_bin("not base64!"), Err(CryptoError::Base64Decode));
    assert_eq!(url_base64_to_bin("aGVsb"), Err(CryptoError::Base64Decode));
}

#[test]
fn url_base64_round_trip_for_whole_groups() {
    let data: Vec<u8> = (0u8..=254).collect();
    assert_eq!(data.len() % 3, 0);
    let text = bin_to_url_base64(&data);
    assert!(text.chars().all(|c| c.is_ascii_alphanumeric() || c == '-' || c == '_'));
    assert_eq!(url_base64_to_bin(&text).unwrap(), data);
}

#[test]
fn url_base64_round_trip_for_every_length() {
    for n in 0..40usize {
        let data: Vec<u8> = (0..n).map(|i| (i * 37 + 5) as u8).collect();
        let text = bin_to_url_base64(&data);
        assert!(!text.contains('='));
        assert_eq!(url_base64_to_bin(&text).unwrap(), data);
    }
}

#[test]
fn ctr_matches_nist_vector() {
    let key = hex("2b7e151628aed2a6abf7158809cf4f3c");
    let iv = hex("f0f1f2f3f4f5f6f7f8f9fafbfcfdfeff");
    let plain = hex("6bc1bee22e409f96e93d7e117393172a");
    let cipher = encrypt_aes_ctr(&plain, &key, &iv).unwrap();
    assert_eq!(cipher, hex("874d6191b620e3261bef6864990db6ce"));
    assert_eq!(decrypt_aes_ctr(&cipher, &key, &iv).unwrap(), plain);
}

#[test]
fn ctr_uses_first_sixteen_bytes_and_wraps_counter() {
    let mut key: Vec<u8> = (0u8..16).collect();
    key.extend_from_slice(&[9, 9, 9]);
    let iv = vec![0xffu8; 20];
    let out = decrypt_aes_ctr(&[0u8; 48], &key, &iv).unwrap();
    assert_eq!(
        out,
        hex("3c441f32ce07822364d7a2990e50bb13c6a13b37878f5b826f4f8162a1c8d8797346139595c0b41e497bbde365f42d0a")
    );
}

#[test]
fn ctr_decrypt_undoes_encrypt() {
    let key: Vec<u8> = (100u8..116).collect();
    let iv: Vec<u8> = (7u8..23).collect();
    let data: Vec<u8> = (0..1000u32).map(|i| (i * 7 % 256) as u8).collect();
    let enc = encrypt_aes_ctr(&data, &key, &iv).unwrap();
    assert_ne!(enc, data);
    assert_eq!(decrypt_aes_ctr(&enc, &key, &iv).unwrap(), data);
}

#[test]
fn cbc_matches_nist_vector() {
    let key = hex("2b7e151628aed2a6abf7158809cf4f3c");
    let iv = hex("000102030405060708090a0b0c0d0e0f");
    let cipher = hex("7649abac8119b246cee98e9b12e9197d");
    assert_eq!(decrypt_aes_cbc(&cipher, &key, &iv).unwrap(), hex("6bc1bee22e409f96e93d7e117393172a"));
}

#[test]
fn cbc_rejects_partial_blocks() {
    let key = [0u8; 16];
    assert_eq!(decrypt_aes_cbc(&[1, 2, 3], &key, &key), Err(CryptoError::CbcDecrypt));
    assert_eq!(decrypt_aes_cbc(&[], &key, &key), Ok(vec![]));
}

#[test]
fn cbc_encrypt_matches_nist_vector() {
    let key = hex("2b7e151628aed2a6abf7158809cf4f3c");
    let iv = hex("000102030405060708090a0b0c0d0e0f");
    let plain = hex("6bc1bee22e409f96e93d7e117393172aae2d8a571e03ac9c9eb76fac45af8e51");
    let cipher = encrypt_aes_cbc(&plain, &key, &iv).unwrap();
    assert_eq!(cipher[0..16].to_vec(), hex("7649abac8119b246cee98e9b12e9197d"));
    // The two NIST blocks, then the full block of PKCS#7 padding.
    assert_eq!(
        cipher,
        hex("7649abac8119b246cee98e9b12e9197d5086cb9b507219ee95db113a917678b255e21d7100b988ffec32feeafaf23538")
    );
}

#[test]
fn cbc_decrypt_undoes_encrypt() {
    let mut key: Vec<u8> = (50u8..66).collect();
    key.push(1);
    let iv: Vec<u8> = (3u8..21).collect();
    for n in [0usize, 1, 15, 16, 17, 96, 100] {
        let data: Vec<u8> = (0..n).map(|i| (i * 13 % 256) as u8).collect();
        let enc = encrypt_aes_cbc(&data, &key, &iv).unwrap();
        let pad = 16 - n % 16;
        assert_eq!(enc.len(), n + pad);
        let mut padded = data.clone();
        padded.extend(std::iter::repeat(pad as u8).take(pad));
        assert_eq!(decrypt_aes_cbc(&enc, &key, &iv).unwrap(), padded);
    }
}

#[test]
fn cbc_encrypt_pads_every_length() {
    let key = [0u8; 16];
    assert_eq!(encrypt_aes_cbc(b"abc", &key, &key), Ok(hex("976a995f94cf4c1e24b6e2fb067e7a69")));
    assert_eq!(encrypt_aes_cbc(&[], &key, &key), Ok(hex("0143db63ee66b0cdff9f69917680151e")));
}

#[test]
fn crypto_error_messages() {
    assert_eq!(CryptoError::KeyNotBlockAligned.message(), "La clave cifrada debe tener un tamaño múltiplo de 16");
    assert_eq!(CryptoError::CbcDecrypt.message(), "Error al descifrar datos con AES-CBC: BlockModeError");
    assert_eq!(CryptoError::Base64Decode.message(), "Error al decodificar Base64");
}

#[test]
fn ecb_key_decryption_matches_fips_vector() {
    let key: Vec<u8> = (0u8..16).collect();
    let cipher = hex("69c4e0d86a7b0430d8cdb78070b4c55a");
    assert_eq!(decrypt_key(&cipher, &key).unwrap(), hex("00112233445566778899aabbccddeeff"));
    let mut two = cipher.clone();
    two.extend_from_slice(&cipher);
    assert_eq!(decrypt_key(&two, &key).unwrap(), hex("00112233445566778899aabbccddeeff00112233445566778899aabbccddeeff"));
}

#[test]
fn ecb_rejects_unaligned_key() {
    assert_eq!(decrypt_key(&[0u8; 15], &[0u8; 16]), Err(CryptoError::KeyNotBlockAligned));
}

#[test]
fn derive_key_matches_pbkdf2_vector() {
    assert_eq!(
        derive_key("password", b"salt"),
        hex("4156f668bb31db3a17f4d1b91424ef0d417ad1f35d055aceaebd8da0f6a44b7e")
    );
}

#[test]
fn rsa_decrypts_textbook_example() {
    // p = 61, q = 53, d = 2753: 2790^2753 mod 3233 = 65.
    assert_eq!(rsa_decrypt(&[0x0a, 0xe6], &[61], &[53], &[0x0a, 0xc1]).unwrap(), vec![65]);
    // Leading zero bytes of the input do not matter; zero decrypts to zero.
    assert_eq!(rsa_decrypt(&[0, 0, 0x0a, 0xe6], &[0, 61], &[53], &[0x0a, 0xc1]).unwrap(), vec![65]);
    assert_eq!(rsa_decrypt(&[], &[61], &[53], &[0x0a, 0xc1]).unwrap(), vec![0]);
}

#[test]
fn rsa_with_modulus_one_gives_zero() {
    assert_eq!(rsa_decrypt(&[0x0a, 0xe6], &[1], &[0, 1], &[3]).unwrap(), vec![0]);
    assert_eq!(rsa_decrypt(&[5], &[1], &[1], &[]).unwrap(), vec![0]);
}

#[test]
fn rsa_undoes_public_exponent() {
    // e = 17 is the public exponent matching d = 2753 for n = 3233.
    let m: u64 = 1234;
    let mut c: u64 = 1;
    for _ in 0..17 {
        c = c * m % 3233;
    }
    let out = rsa_decrypt(&[(c >> 8) as u8, c as u8], &[61], &[53], &[0x0a, 0xc1]).unwrap();
    assert_eq!(out, vec![0x04, 0xd2]);
}

#[test]
fn attributes_are_decrypted_and_trimmed() {
    let key: Vec<u8> = (0u8..16).collect();
    let text = decrypt_file_attributes("pYwltwx0hwfhQyMKBJyeIJqHayOitcwNl-LYdIs8NPg=", &key).unwrap();
    assert_eq!(text, "{\"n\":\"report.pdf\"}");
}

#[test]
fn attributes_lose_every_leading_mega() {
    let key: Vec<u8> = (0u8..16).collect();
    assert_eq!(decrypt_file_attributes("FYp5U9Yt74n9T-nu5-P5vg==", &key).unwrap(), "x");
}

#[test]
fn attributes_errors() {
    let key: Vec<u8> = (0u8..16).collect();
    assert_eq!(decrypt_file_attributes("mdGJeVfTQod6BLnEhz0hRg==", &key), Err(CryptoError::InvalidUtf8));
    assert_eq!(decrypt_file_attributes("AAAA", &key), Err(CryptoError::CbcDecrypt));
    assert_eq!(decrypt_file_attributes("%%", &key), Err(CryptoError::Base64Decode));
}

#[test]
fn cbc_mac_matches_reference() {
    let key: Vec<u8> = (0u8..16).collect();
    let iv: Vec<u8> = (16u8..32).collect();
    let mac = calculate_cbc_mac(SAMPLE, &key, &iv).unwrap();
    assert_eq!(mac, hex("09f70f7015d7342c9c8bf2c13c9ebb6e"));
    assert_eq!(calculate_cbc_mac(&[], &key, &iv).unwrap(), iv);
    let mut long_key = key.clone();
    long_key.extend_from_slice(&[0xaa; 16]);
    assert_eq!(calculate_cbc_mac(SAMPLE, &long_key, &iv).unwrap(), mac);
}

#[test]
fn cbc_mac_of_one_block_is_its_encryption() {
    // With a zero starting value, the MAC of one block is the AES
    // encryption of that block (FIPS-197 appendix C.1).
    let key: Vec<u8> = (0u8..16).collect();
    let block = hex("00112233445566778899aabbccddeeff");
    assert_eq!(calculate_cbc_mac(&block, &key, &[0u8; 16]).unwrap(), hex("69c4e0d86a7b0430d8cdb78070b4c55a"));
}

#[test]
fn file_integrity_is_checked_against_key_mac() {
    assert_eq!(verify_file_integrity(SAMPLE, FILE_KEY_48), Ok(true));
    let mut tampered = SAMPLE.to_vec();
    tampered[3] ^= 1;
    assert_eq!(verify_file_integrity(&tampered, FILE_KEY_48), Ok(false));
    let key_bytes = url_base64_to_bin(FILE_KEY_48).unwrap();
    assert_eq!(verify_mac(SAMPLE, &key_bytes), Ok(true));
}

#[test]
fn file_integrity_errors() {
    assert_eq!(verify_file_integrity(SAMPLE, "AAAA"), Err(CryptoError::KeyTooShort));
    assert_eq!(verify_file_integrity(SAMPLE, "AAECAwQFBgcICQoLDA0ODxAREhMUFRYXGBkaGxwdHh8"), Err(CryptoError::KeyTooShort));
    assert_eq!(verify_file_integrity(SAMPLE, "A"), Err(CryptoError::Base64Decode));
}

#[test]
fn mega_file_decryption_is_one_keystream() {
    let plain: Vec<u8> = (0..MEGA_CHUNK_SIZE + 40).map(|i| (i % 251) as u8).collect();
    let enc = decrypt_mega_file(&plain, FILE_KEY_48).unwrap();
    assert_eq!(enc[..16].to_vec(), hex("07ffed77e5d005699807e41a82999c9c"));
    assert_eq!(enc[MEGA_CHUNK_SIZE..MEGA_CHUNK_SIZE + 16].to_vec(), hex("6ac3552beb6cfc97619279a2101e4ea0"));
    let key: Vec<u8> = (0u8..16).collect();
    let iv: Vec<u8> = (16u8..32).collect();
    assert_eq!(enc, decrypt_aes_ctr(&plain, &key, &iv).unwrap());
    assert_eq!(decrypt_mega_file(&enc, FILE_KEY_48).unwrap(), plain);
}

#[test]
fn mega_chunk_decryption_matches_reference() {
    let key_bytes = url_base64_to_bin(FILE_KEY_48).unwrap();
    let out = decrypt_mega_chunk(SAMPLE, &key_bytes, 0).unwrap();
    assert_eq!(
        out,
        hex("6f9b83188ef56e0bf76fce66e1e6fef7bee2b16cb17fa26b35591c42ff9cad7cea47510b50c597cd45e5e541c4f5511f3e9512dc7a63")
    );
    let tail = decrypt_mega_chunk(&SAMPLE[32..], &key_bytes, 32).unwrap();
    assert_eq!(tail, hex("ea47510b50c597cd45e5e541c4f5511f3e9512dc7a63"));
}

#[test]
fn mega_chunks_at_offsets_match_whole_file() {
    let key_bytes = url_base64_to_bin(FILE_KEY_48).unwrap();
    let plain: Vec<u8> = (0..1000u32).map(|i| (i * 11 % 256) as u8).collect();
    let whole = decrypt_mega_chunk(&plain, &key_bytes, 0).unwrap();
    for start in [0usize, 16, 160, 992] {
        let piece = decrypt_mega_chunk(&plain[start..], &key_bytes, start as u64).unwrap();
        assert_eq!(piece, whole[start..].to_vec());
    }
}

#[test]
fn mega_file_key_errors() {
    assert_eq!(decrypt_mega_file(SAMPLE, "AAAA"), Err(CryptoError::KeyTooShort));
    assert_eq!(decrypt_mega_file(SAMPLE, "***"), Err(CryptoError::Base64Decode));
}
