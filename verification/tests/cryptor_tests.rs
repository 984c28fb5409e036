use otp_cryptor::cryptor::{Cryptor, CryptorError};
use otp_cryptor::rng_functions::RngFunctions;

#[test]
fn binary_round_trip_empty() {
    let b = Cryptor::from_bytes(Vec::new());
    let text = b.to_binary_string();
    assert_eq!(text, "");
    let back = Cryptor::from_binary_string(text).unwrap();
    assert_eq!(back.into_bytes(), Vec::<u8>::new());
}

#[test]
fn binary_round_trip_various() {
    for bytes in [
        vec![0u8],
        vec![255u8],
        vec![97u8, 108, 105],
        vec![0u8, 1, 2, 3, 128, 254, 255],
    ] {
        let b = Cryptor::from_bytes(bytes.clone());
        let text = b.to_binary_string();
        let back = Cryptor::from_binary_string(text).unwrap();
        assert_eq!(back.into_bytes(), bytes);
    }
}

#[test]
fn binary_string_exact() {
    assert_eq!(Cryptor::from_bytes(vec![97]).to_binary_string(), "01100001");
    assert_eq!(
        Cryptor::from_bytes(vec![97, 108, 105]).to_binary_string(),
        "011000010110110001101001"
    );
    assert_eq!(Cryptor::from_bytes(vec![0]).to_binary_string(), "00000000");
    assert_eq!(Cryptor::from_bytes(vec![255]).to_binary_string(), "11111111");
}

#[test]
fn binary_spaced_equivalence() {
    let spaced = Cryptor::from_binary_string("01100001 01101100 01101001".to_string()).unwrap();
    let unspaced = Cryptor::from_binary_string("011000010110110001101001".to_string()).unwrap();
    let from_text = Cryptor::from_text("ali");
    assert_eq!(spaced.as_bytes(), &[97, 108, 105]);
    assert_eq!(spaced.as_bytes(), unspaced.as_bytes());
    assert_eq!(spaced.as_bytes(), from_text.as_bytes());
}

#[test]
fn binary_other_whitespace_stripped() {
    let mixed = Cryptor::from_binary_string("01100001\n01101100\t 01101001\r\n".to_string());
    assert_eq!(mixed.unwrap().into_bytes(), vec![97, 108, 105]);
    let only_space = Cryptor::from_binary_string("  \n\t ".to_string());
    assert_eq!(only_space.unwrap().into_bytes(), Vec::<u8>::new());
}

#[test]
fn binary_malformed_length() {
    let r = Cryptor::from_binary_string("0110000".to_string());
    assert!(matches!(r, Err(CryptorError::NotValid)));
}

#[test]
fn binary_malformed_digit() {
    let r = Cryptor::from_binary_string("01100002".to_string());
    assert!(matches!(r, Err(CryptorError::NotValid)));
    let r2 = Cryptor::from_binary_string("0110000a".to_string());
    assert!(matches!(r2, Err(CryptorError::NotValid)));
}

#[test]
fn decrypt_size_mismatch() {
    let cipher = Cryptor::from_bytes(vec![1, 2, 3, 4, 5]);
    let key = Cryptor::from_bytes(vec![9, 9, 9, 9]);
    let r = cipher.decrypt(key);
    assert!(matches!(r, Err(CryptorError::NotSameSize)));
}

#[test]
fn decrypt_is_bytewise_xor() {
    let cipher = Cryptor::from_bytes(vec![0b1010_1010, 0b0000_1111]);
    let key = Cryptor::from_bytes(vec![0b0110_0110, 0b1111_1111]);
    let m = cipher.decrypt(key).unwrap();
    assert_eq!(m.into_bytes(), vec![0b1100_1100, 0b1111_0000]);
}

#[test]
fn xor_involution_fixed_key() {
    let message = vec![1u8, 2, 3, 250, 0, 77];
    let key_bytes = vec![9u8, 8, 7, 6, 5, 4];
    let m = Cryptor::from_bytes(message.clone());
    let cipher = m.decrypt(Cryptor::from_bytes(key_bytes.clone())).unwrap();
    let back = cipher.decrypt(Cryptor::from_bytes(key_bytes)).unwrap();
    assert_eq!(back.into_bytes(), message);
}

#[test]
fn utf8_view_ok() {
    let b = Cryptor::from_text("ali");
    assert_eq!(b.len(), 3);
    assert_eq!(b.to_utf8_string().unwrap(), "ali");
    let unicode = Cryptor::from_text("héllo ✓");
    assert_eq!(unicode.to_utf8_string().unwrap(), "héllo ✓");
}

#[test]
fn utf8_view_parse_error() {
    let b = Cryptor::from_bytes(vec![0xff, 0xfe]);
    assert!(matches!(b.to_utf8_string(), Err(CryptorError::ParseError)));
    let truncated = Cryptor::from_bytes(vec![0xc3]);
    assert!(matches!(truncated.to_utf8_string(), Err(CryptorError::ParseError)));
}

#[test]
fn scenario_ali_fixed_seed() {
    let m = Cryptor::from_text("ali");
    assert_eq!(m.as_bytes(), &[97, 108, 105]);
    let (key, cipher) = m.encrypt(RngFunctions::Xoshiro256Crg(42)).unwrap();
    assert_eq!(key.len(), 3);
    assert_eq!(cipher.len(), 3);
    let same_key = RngFunctions::Xoshiro256Crg(42).generate(3);
    assert_eq!(key.as_bytes(), same_key.as_bytes());
    for i in 0..3 {
        assert_eq!(cipher.as_bytes()[i], m.as_bytes()[i] ^ key.as_bytes()[i]);
    }
    let recovered = cipher.decrypt(key).unwrap();
    assert_eq!(recovered.as_bytes(), &[97, 108, 105]);
    assert_eq!(recovered.to_utf8_string().unwrap(), "ali");
}

#[test]
fn scalar_little_endian() {
    assert_eq!(Cryptor::from_u8(7).into_bytes(), vec![7]);
    assert_eq!(Cryptor::from_u16(0x1234).into_bytes(), vec![0x34, 0x12]);
    assert_eq!(
        Cryptor::from_u32(0xDEAD_BEEF).into_bytes(),
        vec![0xEF, 0xBE, 0xAD, 0xDE]
    );
    assert_eq!(
        Cryptor::from_u64(1).into_bytes(),
        vec![1, 0, 0, 0, 0, 0, 0, 0]
    );
    let mut expected_258 = vec![2u8, 1];
    expected_258.extend(std::iter::repeat(0u8).take(14));
    assert_eq!(Cryptor::from_u128(258).into_bytes(), expected_258);
    assert_eq!(
        Cryptor::from_usize(5).into_bytes(),
        vec![5, 0, 0, 0, 0, 0, 0, 0]
    );
}

#[test]
fn scalar_signed_twos_complement() {
    assert_eq!(Cryptor::from_i8(-1).into_bytes(), vec![0xFF]);
    assert_eq!(Cryptor::from_i16(-2).into_bytes(), vec![0xFE, 0xFF]);
    assert_eq!(
        Cryptor::from_i32(i32::MIN).into_bytes(),
        vec![0, 0, 0, 0x80]
    );
    assert_eq!(
        Cryptor::from_i64(-1).into_bytes(),
        vec![0xFF; 8]
    );
    assert_eq!(Cryptor::from_i128(-1).into_bytes(), vec![0xFF; 16]);
    assert_eq!(Cryptor::from_isize(-1).into_bytes(), vec![0xFF; 8]);
}

#[test]
fn from_parts_concatenates() {
    let parts = vec![
        Cryptor::from_text("ab"),
        Cryptor::from_text("cd"),
        Cryptor::from_bytes(vec![1, 2]),
    ];
    let joined = Cryptor::from_parts(parts);
    assert_eq!(joined.into_bytes(), vec![97, 98, 99, 100, 1, 2]);
    let empty = Cryptor::from_parts(Vec::new());
    assert_eq!(empty.into_bytes(), Vec::<u8>::new());
}
