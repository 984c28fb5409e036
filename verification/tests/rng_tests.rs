use otp_cryptor::cryptor::Cryptor;
use otp_cryptor::rng_functions::RngFunctions;

fn all_variants() -> Vec<RngFunctions> {
    vec![
        RngFunctions::Xoshiro256,
        RngFunctions::Xoshiro256Crg(42),
        RngFunctions::Xoshiro256T,
        RngFunctions::HC128,
        RngFunctions::HC128Crg(42),
        RngFunctions::HC128T,
        RngFunctions::Chacha20,
        RngFunctions::Chacha20Crg(42),
        RngFunctions::Chacha20T,
    ]
}

#[test]
fn generate_length_contract() {
    for variant in all_variants() {
        assert_eq!(variant.generate(0).len(), 0);
        assert_eq!(variant.generate(1).len(), 1);
        assert_eq!(variant.generate(17).len(), 17);
        assert_eq!(variant.generate(256).len(), 256);
    }
}

#[test]
fn fixed_seed_is_deterministic() {
    let pairs = [
        (RngFunctions::Xoshiro256Crg(7), RngFunctions::Xoshiro256Crg(7)),
        (RngFunctions::HC128Crg(7), RngFunctions::HC128Crg(7)),
        (RngFunctions::Chacha20Crg(7), RngFunctions::Chacha20Crg(7)),
    ];
    for (a, b) in pairs {
        assert_eq!(a.generate(32).into_bytes(), b.generate(32).into_bytes());
    }
}

#[test]
fn different_seeds_differ() {
    assert_ne!(
        RngFunctions::Xoshiro256Crg(1).generate(32).into_bytes(),
        RngFunctions::Xoshiro256Crg(2).generate(32).into_bytes()
    );
    assert_ne!(
        RngFunctions::HC128Crg(1).generate(32).into_bytes(),
        RngFunctions::HC128Crg(2).generate(32).into_bytes()
    );
    assert_ne!(
        RngFunctions::Chacha20Crg(1).generate(32).into_bytes(),
        RngFunctions::Chacha20Crg(2).generate(32).into_bytes()
    );
}

#[test]
fn algorithm_families_differ() {
    // The three families are distinct generators, so under one seed their
    // streams should not coincide (statistical check on 32 bytes).
    let x = RngFunctions::Xoshiro256Crg(42).generate(32).into_bytes();
    let h = RngFunctions::HC128Crg(42).generate(32).into_bytes();
    let c = RngFunctions::Chacha20Crg(42).generate(32).into_bytes();
    assert_ne!(x, h);
    assert_ne!(x, c);
    assert_ne!(h, c);
}

#[test]
fn entropy_mode_differs_between_calls() {
    // Statistical check: two 32-byte entropy draws collide with probability
    // 2^-256, so inequality is the expected outcome.
    let variants = [
        (RngFunctions::Xoshiro256, RngFunctions::Xoshiro256),
        (RngFunctions::HC128, RngFunctions::HC128),
        (RngFunctions::Chacha20, RngFunctions::Chacha20),
    ];
    for (a, b) in variants {
        assert_ne!(a.generate(32).into_bytes(), b.generate(32).into_bytes());
    }
}

#[test]
fn encrypt_decrypt_round_trip_all_variants() {
    for variant in all_variants() {
        let m = Cryptor::from_text("hello, one-time pad");
        let (key, cipher) = m.encrypt(variant).unwrap();
        assert_eq!(key.len(), m.len());
        assert_eq!(cipher.len(), m.len());
        let recovered = cipher.decrypt(key).unwrap();
        assert_eq!(recovered.as_bytes(), m.as_bytes());
        assert_eq!(recovered.to_utf8_string().unwrap(), "hello, one-time pad");
    }
}

#[test]
fn encrypt_empty_message() {
    let m = Cryptor::from_text("");
    let (key, cipher) = m.encrypt(RngFunctions::Xoshiro256Crg(1)).unwrap();
    assert_eq!(key.len(), 0);
    assert_eq!(cipher.len(), 0);
    assert_eq!(cipher.decrypt(key).unwrap().len(), 0);
}
