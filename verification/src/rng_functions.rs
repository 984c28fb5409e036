//! Key-material generation: three pseudorandom generator families
//! (Xoshiro256++, HC-128, ChaCha20), each in entropy-seeded, fixed-seed and
//! time-seeded form. A fixed seed reproduces the same byte stream on every
//! call; entropy and time seeding promise only the requested length.

use crate::cryptor::Cryptor;
use rand::{Rng, SeedableRng};
use rand_chacha::ChaCha20Rng;
use rand_hc::Hc128Rng;
use rand_xoshiro::Xoshiro256PlusPlus;
use vstd::prelude::*;

verus! {

#[verifier::external_type_specification]
#[verifier::external_body]
pub struct ExXoshiro256PlusPlus(Xoshiro256PlusPlus);

#[verifier::external_type_specification]
#[verifier::external_body]
pub struct ExHc128Rng(Hc128Rng);

#[verifier::external_type_specification]
#[verifier::external_body]
pub struct ExChaCha20Rng(ChaCha20Rng);

/// The `k`-th byte drawn (via `rand::Rng::gen::<u8>`) from a Xoshiro256++
/// generator seeded with `rand::SeedableRng::seed_from_u64(seed)`. The
/// generator is a pure state machine, so this byte is a function of the seed
/// and the position alone.
pub uninterp spec fn xoshiro_256_byte(seed: u64, k: nat) -> u8;

/// As `xoshiro_256_byte`, for the HC-128 generator.
pub uninterp spec fn hc_128_byte(seed: u64, k: nat) -> u8;

/// As `xoshiro_256_byte`, for the ChaCha20 generator.
pub uninterp spec fn chacha_20_byte(seed: u64, k: nat) -> u8;

/// The first `len` bytes of the Xoshiro256++ stream under a fixed seed.
pub open spec fn xoshiro_256_stream(seed: u64, len: nat) -> Seq<u8> {
    Seq::new(len, |i: int| xoshiro_256_byte(seed, i as nat))
}

/// The first `len` bytes of the HC-128 stream under a fixed seed.
pub open spec fn hc_128_stream(seed: u64, len: nat) -> Seq<u8> {
    Seq::new(len, |i: int| hc_128_byte(seed, i as nat))
}

/// The first `len` bytes of the ChaCha20 stream under a fixed seed.
pub open spec fn chacha_20_stream(seed: u64, len: nat) -> Seq<u8> {
    Seq::new(len, |i: int| chacha_20_byte(seed, i as nat))
}

/// A Xoshiro256++ generator known to have been seeded with `seed` and to have
/// already produced `drawn` bytes.
pub struct SeededXoshiro256 {
    rng: Xoshiro256PlusPlus,
    seed: Ghost<u64>,
    drawn: Ghost<nat>,
}

/// An HC-128 generator known to have been seeded with `seed` and to have
/// already produced `drawn` bytes.
pub struct SeededHc128 {
    rng: Hc128Rng,
    seed: Ghost<u64>,
    drawn: Ghost<nat>,
}

/// A ChaCha20 generator known to have been seeded with `seed` and to have
/// already produced `drawn` bytes.
pub struct SeededChaCha20 {
    rng: ChaCha20Rng,
    seed: Ghost<u64>,
    drawn: Ghost<nat>,
}

/// Relies on `rand::SeedableRng::seed_from_u64` for `Xoshiro256PlusPlus`:
/// the state it builds is a function of the seed alone.
#[verifier::external_body]
fn xoshiro_256_seed_from_u64(seed: u64) -> (r: Xoshiro256PlusPlus) {
    Xoshiro256PlusPlus::seed_from_u64(seed)
}

/// The one place a `SeededXoshiro256` is built: the ghost seed is the seed
/// the generator was in fact seeded with, and no byte has been drawn yet.
fn xoshiro_256_seeded(seed: u64) -> (g: SeededXoshiro256)
    ensures
        g.seed@ == seed,
        g.drawn@ == 0,
{
    SeededXoshiro256 { rng: xoshiro_256_seed_from_u64(seed), seed: Ghost(seed), drawn: Ghost(0nat) }
}

/// Relies on `rand::Rng::gen::<u8>` on a `Xoshiro256PlusPlus`: the generator
/// is a deterministic state machine, so the byte drawn at position `drawn` of
/// a `seed_from_u64`-seeded run is a function of the seed and the position.
/// The struct's fields are private, so every value of it comes from
/// `xoshiro_256_seeded` and its ghost fields record the true seed and
/// position.
#[verifier::external_body]
fn xoshiro_256_next_byte(g: &mut SeededXoshiro256) -> (r: u8)
    ensures
        final(g).seed@ == old(g).seed@,
        final(g).drawn@ == old(g).drawn@ + 1,
        r == xoshiro_256_byte(old(g).seed@, old(g).drawn@),
{
    g.rng.gen()
}

/// Relies on `rand::SeedableRng::from_entropy` for `Xoshiro256PlusPlus`;
/// nothing is assumed of the state it builds.
#[verifier::external_body]
fn xoshiro_256_entropy() -> (r: Xoshiro256PlusPlus) {
    Xoshiro256PlusPlus::from_entropy()
}

/// Relies on `rand::Rng::gen::<u8>` on a `Xoshiro256PlusPlus`; nothing is
/// assumed of the byte drawn.
#[verifier::external_body]
fn xoshiro_256_entropy_byte(rng: &mut Xoshiro256PlusPlus) -> (r: u8) {
    rng.gen()
}

/// Relies on `rand::SeedableRng::seed_from_u64` for `Hc128Rng`: the state it
/// builds is a function of the seed alone.
#[verifier::external_body]
fn hc_128_seed_from_u64(seed: u64) -> (r: Hc128Rng) {
    Hc128Rng::seed_from_u64(seed)
}

/// The one place a `SeededHc128` is built: the ghost seed is the seed the
/// generator was in fact seeded with, and no byte has been drawn yet.
fn hc_128_seeded(seed: u64) -> (g: SeededHc128)
    ensures
        g.seed@ == seed,
        g.drawn@ == 0,
{
    SeededHc128 { rng: hc_128_seed_from_u64(seed), seed: Ghost(seed), drawn: Ghost(0nat) }
}

/// Relies on `rand::Rng::gen::<u8>` on an `Hc128Rng`: the byte drawn at
/// position `drawn` of a `seed_from_u64`-seeded run is a function of the seed
/// and the position. The struct's fields are private, so every value of it
/// comes from `hc_128_seeded` and its ghost fields record the true seed and
/// position.
#[verifier::external_body]
fn hc_128_next_byte(g: &mut SeededHc128) -> (r: u8)
    ensures
        final(g).seed@ == old(g).seed@,
        final(g).drawn@ == old(g).drawn@ + 1,
        r == hc_128_byte(old(g).seed@, old(g).drawn@),
{
    g.rng.gen()
}

/// Relies on `rand::SeedableRng::from_entropy` for `Hc128Rng`; nothing is
/// assumed of the state it builds.
#[verifier::external_body]
fn hc_128_entropy() -> (r: Hc128Rng) {
    Hc128Rng::from_entropy()
}

/// Relies on `rand::Rng::gen::<u8>` on an `Hc128Rng`; nothing is assumed of
/// the byte drawn.
#[verifier::external_body]
fn hc_128_entropy_byte(rng: &mut Hc128Rng) -> (r: u8) {
    rng.gen()
}

/// Relies on `rand::SeedableRng::seed_from_u64` for `ChaCha20Rng`: the state
/// it builds is a function of the seed alone.
#[verifier::external_body]
fn chacha_20_seed_from_u64(seed: u64) -> (r: ChaCha20Rng) {
    ChaCha20Rng::seed_from_u64(seed)
}

/// The one place a `SeededChaCha20` is built: the ghost seed is the seed the
/// generator was in fact seeded with, and no byte has been drawn yet.
fn chacha_20_seeded(seed: u64) -> (g: SeededChaCha20)
    ensures
        g.seed@ == seed,
        g.drawn@ == 0,
{
    SeededChaCha20 { rng: chacha_20_seed_from_u64(seed), seed: Ghost(seed), drawn: Ghost(0nat) }
}

/// Relies on `rand::Rng::gen::<u8>` on a `ChaCha20Rng`: the byte drawn at
/// position `drawn` of a `seed_from_u64`-seeded run is a function of the seed
/// and the position. The struct's fields are private, so every value of it
/// comes from `chacha_20_seeded` and its ghost fields record the true seed
/// and position.
#[verifier::external_body]
fn chacha_20_next_byte(g: &mut SeededChaCha20) -> (r: u8)
    ensures
        final(g).seed@ == old(g).seed@,
        final(g).drawn@ == old(g).drawn@ + 1,
        r == chacha_20_byte(old(g).seed@, old(g).drawn@),
{
    g.rng.gen()
}

/// Relies on `rand::SeedableRng::from_entropy` for `ChaCha20Rng`; nothing is
/// assumed of the state it builds.
#[verifier::external_body]
fn chacha_20_entropy() -> (r: ChaCha20Rng) {
    ChaCha20Rng::from_entropy()
}

/// Relies on `rand::Rng::gen::<u8>` on a `ChaCha20Rng`; nothing is assumed of
/// the byte drawn.
#[verifier::external_body]
fn chacha_20_entropy_byte(rng: &mut ChaCha20Rng) -> (r: u8) {
    rng.gen()
}

/// Relies on `std::time::SystemTime`: whole seconds since the Unix epoch
/// (zero should the clock stand before it); nothing is assumed of the value.
#[verifier::external_body]
fn unix_time_seconds() -> (r: u64) {
    std::time::SystemTime::now()
        .duration_since(std::time::UNIX_EPOCH)
        .map(|d| d.as_secs())
        .unwrap_or(0)
}

/// The closed choice of key-generation algorithm and seeding mode.
#[derive(Debug)]
pub enum RngFunctions {
    /// Xoshiro256++, freshly seeded from operating-system entropy.
    Xoshiro256,
    /// Xoshiro256++, deterministically seeded from the given integer.
    Xoshiro256Crg(u64),
    /// Xoshiro256++, seeded from the wall-clock time in whole seconds.
    Xoshiro256T,
    /// HC-128, freshly seeded from operating-system entropy.
    HC128,
    /// HC-128, deterministically seeded from the given integer.
    HC128Crg(u64),
    /// HC-128, seeded from the wall-clock time in whole seconds.
    HC128T,
    /// ChaCha20, freshly seeded from operating-system entropy.
    Chacha20,
    /// ChaCha20, deterministically seeded from the given integer.
    Chacha20Crg(u64),
    /// ChaCha20, seeded from the wall-clock time in whole seconds.
    Chacha20T,
}

impl RngFunctions {
    /// The byte sequence a fixed-seed variant is bound to produce at the
    /// given length; `None` for the entropy- and time-seeded variants, whose
    /// output is not a function of the selector.
    pub open spec fn fixed_output(self, len: nat) -> Option<Seq<u8>> {
        match self {
            RngFunctions::Xoshiro256Crg(s) => Some(xoshiro_256_stream(s, len)),
            RngFunctions::HC128Crg(s) => Some(hc_128_stream(s, len)),
            RngFunctions::Chacha20Crg(s) => Some(chacha_20_stream(s, len)),
            _ => None,
        }
    }

    /// Produces exactly `len` bytes of key material, drawn one by one from
    /// the selected generator. Fixed-seed variants reproduce the stream bound
    /// to their seed; time-seeded variants behave as fixed-seed under some
    /// seed; all variants always return exactly `len` bytes.
    pub fn generate(&self, len: usize) -> (r: Cryptor)
        ensures
            r@.len() == len,
            self.fixed_output(len as nat) matches Some(s) ==> r@ == s,
            self is Xoshiro256T ==> exists|t: u64| r@ == xoshiro_256_stream(t, len as nat),
            self is HC128T ==> exists|t: u64| r@ == hc_128_stream(t, len as nat),
            self is Chacha20T ==> exists|t: u64| r@ == chacha_20_stream(t, len as nat),
    {
        match self {
            RngFunctions::Xoshiro256 => xoshiro_256(len),
            RngFunctions::Xoshiro256Crg(t) => xoshiro_256_crng(len, *t),
            RngFunctions::Xoshiro256T => xoshiro_256_t(len),
            RngFunctions::HC128 => hc_128(len),
            RngFunctions::HC128Crg(t) => hc_128_crng(len, *t),
            RngFunctions::HC128T => hc_128_t(len),
            RngFunctions::Chacha20 => chacha_20(len),
            RngFunctions::Chacha20Crg(t) => chacha_20_crng(len, *t),
            RngFunctions::Chacha20T => chacha_20_t(len),
        }
    }
}

/// Fixed-seed generation is deterministic: any two byte sequences a variant
/// is bound to produce for the same length are identical.
pub proof fn lemma_generator_determinism(g: RngFunctions, len: nat, a: Seq<u8>, b: Seq<u8>)
    requires
        g.fixed_output(len) == Some(a),
        g.fixed_output(len) == Some(b),
    ensures
        a == b,
{
}

/// `len` bytes from an entropy-seeded Xoshiro256++ generator.
pub fn xoshiro_256(len: usize) -> (r: Cryptor)
    ensures
        r@.len() == len,
{
    let mut rng = xoshiro_256_entropy();
    let mut out: Vec<u8> = Vec::new();
    for i in 0..len
        invariant
            out@.len() == i,
    {
        let b = xoshiro_256_entropy_byte(&mut rng);
        out.push(b);
    }
    Cryptor::from_bytes(out)
}

/// `len` bytes from a Xoshiro256++ generator seeded with `crng`.
pub fn xoshiro_256_crng(len: usize, crng: u64) -> (r: Cryptor)
    ensures
        r@ == xoshiro_256_stream(crng, len as nat),
        r@.len() == len,
{
    let mut gen = xoshiro_256_seeded(crng);
    let mut out: Vec<u8> = Vec::new();
    for i in 0..len
        invariant
            gen.seed@ == crng,
            gen.drawn@ == i,
            out@.len() == i,
            forall|j: int| 0 <= j < i ==> out@[j] == xoshiro_256_byte(crng, j as nat),
    {
        let b = xoshiro_256_next_byte(&mut gen);
        out.push(b);
    }
    proof {
        assert(out@ =~= xoshiro_256_stream(crng, len as nat));
    }
    Cryptor::from_bytes(out)
}

/// `len` bytes from a Xoshiro256++ generator seeded with the current time:
/// equivalent to the fixed-seed mode under some seed.
pub fn xoshiro_256_t(len: usize) -> (r: Cryptor)
    ensures
        r@.len() == len,
        exists|t: u64| r@ == xoshiro_256_stream(t, len as nat),
{
    let utime = unix_time_seconds();
    let r = xoshiro_256_crng(len, utime);
    proof {
        assert(r@ == xoshiro_256_stream(utime, len as nat));
    }
    r
}

/// `len` bytes from an entropy-seeded HC-128 generator.
pub fn hc_128(len: usize) -> (r: Cryptor)
    ensures
        r@.len() == len,
{
    let mut rng = hc_128_entropy();
    let mut out: Vec<u8> = Vec::new();
    for i in 0..len
        invariant
            out@.len() == i,
    {
        let b = hc_128_entropy_byte(&mut rng);
        out.push(b);
    }
    Cryptor::from_bytes(out)
}

/// `len` bytes from an HC-128 generator seeded with `crng`.
pub fn hc_128_crng(len: usize, crng: u64) -> (r: Cryptor)
    ensures
        r@ == hc_128_stream(crng, len as nat),
        r@.len() == len,
{
    let mut gen = hc_128_seeded(crng);
    let mut out: Vec<u8> = Vec::new();
    for i in 0..len
        invariant
            gen.seed@ == crng,
            gen.drawn@ == i,
            out@.len() == i,
            forall|j: int| 0 <= j < i ==> out@[j] == hc_128_byte(crng, j as nat),
    {
        let b = hc_128_next_byte(&mut gen);
        out.push(b);
    }
    proof {
        assert(out@ =~= hc_128_stream(crng, len as nat));
    }
    Cryptor::from_bytes(out)
}

/// `len` bytes from an HC-128 generator seeded with the current time:
/// equivalent to the fixed-seed mode under some seed.
pub fn hc_128_t(len: usize) -> (r: Cryptor)
    ensures
        r@.len() == len,
        exists|t: u64| r@ == hc_128_stream(t, len as nat),
{
    let utime = unix_time_seconds();
    let r = hc_128_crng(len, utime);
    proof {
        assert(r@ == hc_128_stream(utime, len as nat));
    }
    r
}

/// `len` bytes from an entropy-seeded ChaCha20 generator.
pub fn chacha_20(len: usize) -> (r: Cryptor)
    ensures
        r@.len() == len,
{
    let mut rng = chacha_20_entropy();
    let mut out: Vec<u8> = Vec::new();
    for i in 0..len
        invariant
            out@.len() == i,
    {
        let b = chacha_20_entropy_byte(&mut rng);
        out.push(b);
    }
    Cryptor::from_bytes(out)
}

/// `len` bytes from a ChaCha20 generator seeded with `crng`.
pub fn chacha_20_crng(len: usize, crng: u64) -> (r: Cryptor)
    ensures
        r@ == chacha_20_stream(crng, len as nat),
        r@.len() == len,
{
    let mut gen = chacha_20_seeded(crng);
    let mut out: Vec<u8> = Vec::new();
    for i in 0..len
        invariant
            gen.seed@ == crng,
            gen.drawn@ == i,
            out@.len() == i,
            forall|j: int| 0 <= j < i ==> out@[j] == chacha_20_byte(crng, j as nat),
    {
        let b = chacha_20_next_byte(&mut gen);
        out.push(b);
    }
    proof {
        assert(out@ =~= chacha_20_stream(crng, len as nat));
    }
    Cryptor::from_bytes(out)
}

/// `len` bytes from a ChaCha20 generator seeded with the current time:
/// equivalent to the fixed-seed mode under some seed.
pub fn chacha_20_t(len: usize) -> (r: Cryptor)
    ensures
        r@.len() == len,
        exists|t: u64| r@ == chacha_20_stream(t, len as nat),
{
    let utime = unix_time_seconds();
    let r = chacha_20_crng(len, utime);
    proof {
        assert(r@ == chacha_20_stream(utime, len as nat));
    }
    r
}

} // verus!
