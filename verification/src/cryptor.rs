//! The byte-container at the heart of the one-time-pad cipher: an owned
//! sequence of bytes with lossless conversions (UTF-8 text, binary-digit
//! text, little-endian scalars, raw bytes) and XOR encrypt/decrypt.

use crate::rng_functions::RngFunctions;
use vstd::arithmetic::div_mod::lemma_fundamental_div_mod;
use vstd::prelude::*;
use vstd::string::{StrSliceExecFns, StringExecFns, StringSliceAdditionalSpecFns};
use vstd::utf8::{decode_utf8, encode_utf8, encode_utf8_decode_utf8, encode_utf8_valid_utf8,
    valid_utf8};

verus! {

/// The ways a buffer operation can fail.
#[derive(Debug, Clone, Copy, PartialEq, Eq, Structural)]
pub enum CryptorError {
    /// The byte sequence is not valid UTF-8 although a text view was requested.
    ParseError,
    /// Two buffers that must have equal length do not.
    NotSameSize,
    /// A binary-digit text is malformed: its non-whitespace length is not a
    /// multiple of eight, or it holds a character other than '0' and '1'.
    NotValid,
}

/// An owned, growable, ordered sequence of bytes.
#[derive(Debug)]
pub struct Cryptor {
    byte_data: Vec<u8>,
}

impl View for Cryptor {
    type V = Seq<u8>;

    closed spec fn view(&self) -> Seq<u8> {
        self.byte_data@
    }
}

/// Byte-wise exclusive or of two equal-length byte sequences.
pub open spec fn xor_bytes(a: Seq<u8>, b: Seq<u8>) -> Seq<u8>
    recommends
        a.len() == b.len(),
{
    Seq::new(a.len(), |i: int| a[i] ^ b[i])
}

/// XOR is an involution: masking a message twice with the same key gives the
/// message back. This is what makes the one-time pad invertible.
pub proof fn lemma_xor_involution(m: Seq<u8>, k: Seq<u8>)
    requires
        m.len() == k.len(),
    ensures
        xor_bytes(k, xor_bytes(k, m)) == m,
{
    let c = xor_bytes(k, m);
    assert forall|i: int| 0 <= i < m.len() implies xor_bytes(k, c)[i] == m[i] by {
        let x = k[i];
        let y = m[i];
        assert(x ^ (x ^ y) == y) by (bit_vector);
    }
    assert(xor_bytes(k, c) =~= m);
}

/// The Unicode white-space code points: the characters that are stripped
/// from binary-digit text before parsing.
pub open spec fn is_space(c: char) -> bool {
    let u = c as u32;
    u == 0x09 || u == 0x0A || u == 0x0B || u == 0x0C || u == 0x0D || u == 0x20 || u == 0x85
        || u == 0xA0 || u == 0x1680 || (0x2000 <= u && u <= 0x200A) || u == 0x2028 || u == 0x2029
        || u == 0x202F || u == 0x205F || u == 0x3000
}

/// Binary-digit text with its white space removed.
pub open spec fn strip_spaces(s: Seq<char>) -> Seq<char> {
    s.filter(|c: char| !is_space(c))
}

/// A character that may stand in binary-digit text (after stripping).
pub open spec fn is_bin_digit(c: char) -> bool {
    c == '0' || c == '1'
}

/// Well-formed stripped binary-digit text: a multiple of eight characters,
/// each of them '0' or '1'.
pub open spec fn valid_bin_text(s: Seq<char>) -> bool {
    s.len() % 8 == 0 && (forall|i: int| 0 <= i < s.len() ==> is_bin_digit(#[trigger] s[i]))
}

/// The numeric value of one binary digit.
pub open spec fn bit_value(c: char) -> u8 {
    if c == '1' {
        1
    } else {
        0
    }
}

/// The byte encoded by eight binary digits, most-significant bit first.
pub open spec fn byte_of_bits(g: Seq<char>) -> u8
    recommends
        g.len() == 8,
{
    (bit_value(g[0]) as int * 128 + bit_value(g[1]) as int * 64 + bit_value(g[2]) as int * 32
        + bit_value(g[3]) as int * 16 + bit_value(g[4]) as int * 8 + bit_value(g[5]) as int * 4
        + bit_value(g[6]) as int * 2 + bit_value(g[7]) as int) as u8
}

/// The bytes encoded by well-formed stripped binary-digit text: each
/// consecutive group of eight digits yields one byte, in original order.
pub open spec fn parse_bin_text(s: Seq<char>) -> Seq<u8>
    recommends
        valid_bin_text(s),
{
    Seq::new(s.len() / 8, |i: int| byte_of_bits(s.subrange(8 * i, 8 * i + 8)))
}

/// The digit character for one bit.
pub open spec fn char_of_bit(b: u8) -> char {
    if b == 1 {
        '1'
    } else {
        '0'
    }
}

/// One byte rendered as eight binary digits, most-significant bit first.
pub open spec fn bits_of_byte(b: u8) -> Seq<char> {
    Seq::new(8, |i: int| char_of_bit((b >> ((7 - i) as u8)) & 1))
}

/// A byte sequence rendered as binary-digit text: eight digits per byte,
/// concatenated in order with no separators.
pub open spec fn bin_text_of(bytes: Seq<u8>) -> Seq<char>
    decreases bytes.len(),
{
    if bytes.len() == 0 {
        Seq::empty()
    } else {
        bin_text_of(bytes.drop_last()) + bits_of_byte(bytes.last())
    }
}

/// Rendered binary-digit text has eight characters per byte.
pub proof fn lemma_bin_text_len(bytes: Seq<u8>)
    ensures
        bin_text_of(bytes).len() == 8 * bytes.len(),
    decreases bytes.len(),
{
    if bytes.len() > 0 {
        lemma_bin_text_len(bytes.drop_last());
    }
}

/// Character `8 * k + j` of rendered binary-digit text is digit `j` of the
/// rendering of byte `k`.
proof fn lemma_bin_text_index(bytes: Seq<u8>, k: int, j: int)
    requires
        0 <= k < bytes.len(),
        0 <= j < 8,
    ensures
        bin_text_of(bytes)[8 * k + j] == bits_of_byte(bytes[k])[j],
    decreases bytes.len(),
{
    lemma_bin_text_len(bytes.drop_last());
    if k < bytes.len() - 1 {
        lemma_bin_text_index(bytes.drop_last(), k, j);
    }
}

/// Reading back the eight digits of a rendered byte gives the byte.
proof fn lemma_byte_bits_round_trip(b: u8)
    ensures
        byte_of_bits(bits_of_byte(b)) == b,
{
    let g = bits_of_byte(b);
    assert((b >> 7u8) & 1 <= 1 && (b >> 6u8) & 1 <= 1 && (b >> 5u8) & 1 <= 1 && (b >> 4u8) & 1
        <= 1 && (b >> 3u8) & 1 <= 1 && (b >> 2u8) & 1 <= 1 && (b >> 1u8) & 1 <= 1 && (b >> 0u8) & 1
        <= 1) by (bit_vector);
    assert(b == ((b >> 7u8) & 1) * 128 + ((b >> 6u8) & 1) * 64 + ((b >> 5u8) & 1) * 32 + ((b
        >> 4u8) & 1) * 16 + ((b >> 3u8) & 1) * 8 + ((b >> 2u8) & 1) * 4 + ((b >> 1u8) & 1) * 2 + ((b
        >> 0u8) & 1)) by (bit_vector);
}

/// Every character of rendered binary-digit text is a binary digit, and the
/// text parses back to exactly the bytes it was rendered from.
proof fn lemma_parse_of_rendered(bytes: Seq<u8>)
    ensures
        valid_bin_text(bin_text_of(bytes)),
        parse_bin_text(bin_text_of(bytes)) == bytes,
{
    let t = bin_text_of(bytes);
    lemma_bin_text_len(bytes);
    assert forall|i: int| 0 <= i < t.len() implies is_bin_digit(#[trigger] t[i]) by {
        lemma_fundamental_div_mod(i, 8);
        let k = i / 8;
        let j = i % 8;
        lemma_bin_text_index(bytes, k, j);
    }
    lemma_fundamental_div_mod(8 * bytes.len() as int, 8);
    assert forall|k: int| 0 <= k < bytes.len() implies #[trigger] parse_bin_text(t)[k]
        == bytes[k] by {
        let g = t.subrange(8 * k, 8 * k + 8);
        assert forall|j: int| 0 <= j < 8 implies g[j] == bits_of_byte(bytes[k])[j] by {
            lemma_bin_text_index(bytes, k, j);
        }
        assert(g =~= bits_of_byte(bytes[k]));
        lemma_byte_bits_round_trip(bytes[k]);
    }
    assert(parse_bin_text(t) =~= bytes);
}

/// Stripping white space from text that holds none leaves it unchanged.
proof fn lemma_strip_all_digits(s: Seq<char>)
    requires
        forall|i: int| 0 <= i < s.len() ==> is_bin_digit(#[trigger] s[i]),
    ensures
        strip_spaces(s) == s,
    decreases s.len(),
{
    reveal(Seq::filter);
    if s.len() > 0 {
        lemma_strip_all_digits(s.drop_last());
        assert(strip_spaces(s) =~= s);
    }
}

/// Stripping distributes over appending one character.
proof fn lemma_strip_push(s: Seq<char>, c: char)
    ensures
        strip_spaces(s.push(c)) == if is_space(c) {
            strip_spaces(s)
        } else {
            strip_spaces(s).push(c)
        },
{
    reveal(Seq::filter);
    assert(s.push(c).drop_last() =~= s);
    assert(s.push(c).last() == c);
}

/// Round-trip law of the binary-digit text format: rendering any byte
/// sequence and parsing the text back (stripping first, as the parser always
/// does) recovers exactly the original bytes.
pub proof fn lemma_binary_round_trip(bytes: Seq<u8>)
    ensures
        valid_bin_text(strip_spaces(bin_text_of(bytes))),
        parse_bin_text(strip_spaces(bin_text_of(bytes))) == bytes,
{
    lemma_parse_of_rendered(bytes);
    lemma_strip_all_digits(bin_text_of(bytes));
}

/// The single byte of an 8-bit value.
pub open spec fn u8_le_bytes(v: u8) -> Seq<u8> {
    seq![v]
}

/// The two little-endian bytes of a 16-bit value.
pub open spec fn u16_le_bytes(v: u16) -> Seq<u8> {
    seq![(v & 0xff) as u8, ((v >> 8u16) & 0xff) as u8]
}

/// The four little-endian bytes of a 32-bit value.
pub open spec fn u32_le_bytes(v: u32) -> Seq<u8> {
    seq![
        (v & 0xff) as u8,
        ((v >> 8u32) & 0xff) as u8,
        ((v >> 16u32) & 0xff) as u8,
        ((v >> 24u32) & 0xff) as u8,
    ]
}

/// The eight little-endian bytes of a 64-bit value.
pub open spec fn u64_le_bytes(v: u64) -> Seq<u8> {
    seq![
        (v & 0xff) as u8,
        ((v >> 8u64) & 0xff) as u8,
        ((v >> 16u64) & 0xff) as u8,
        ((v >> 24u64) & 0xff) as u8,
        ((v >> 32u64) & 0xff) as u8,
        ((v >> 40u64) & 0xff) as u8,
        ((v >> 48u64) & 0xff) as u8,
        ((v >> 56u64) & 0xff) as u8,
    ]
}

/// The sixteen little-endian bytes of a 128-bit value.
pub open spec fn u128_le_bytes(v: u128) -> Seq<u8> {
    seq![
        (v & 0xff) as u8,
        ((v >> 8u128) & 0xff) as u8,
        ((v >> 16u128) & 0xff) as u8,
        ((v >> 24u128) & 0xff) as u8,
        ((v >> 32u128) & 0xff) as u8,
        ((v >> 40u128) & 0xff) as u8,
        ((v >> 48u128) & 0xff) as u8,
        ((v >> 56u128) & 0xff) as u8,
        ((v >> 64u128) & 0xff) as u8,
        ((v >> 72u128) & 0xff) as u8,
        ((v >> 80u128) & 0xff) as u8,
        ((v >> 88u128) & 0xff) as u8,
        ((v >> 96u128) & 0xff) as u8,
        ((v >> 104u128) & 0xff) as u8,
        ((v >> 112u128) & 0xff) as u8,
        ((v >> 120u128) & 0xff) as u8,
    ]
}

/// The concatenation of a sequence of byte sequences, order preserved.
pub open spec fn concat_views(parts: Seq<Seq<u8>>) -> Seq<u8>
    decreases parts.len(),
{
    if parts.len() == 0 {
        Seq::empty()
    } else {
        concat_views(parts.drop_last()) + parts.last()
    }
}

/// The byte sequences held by a sequence of buffers.
pub open spec fn views_of(parts: Seq<Cryptor>) -> Seq<Seq<u8>> {
    parts.map_values(|c: Cryptor| c@)
}

/// UTF-8 round trip: a text's encoding is always valid UTF-8 and decodes
/// back to the text, so a buffer built from text yields that text again.
pub proof fn lemma_text_round_trip(text: Seq<char>)
    ensures
        valid_utf8(encode_utf8(text)),
        decode_utf8(encode_utf8(text)) == text,
{
    encode_utf8_valid_utf8(text);
    encode_utf8_decode_utf8(text);
}

/// Relies on `std::str::from_utf8`: it returns `Ok` exactly when the bytes
/// are valid UTF-8 (as vstd's `valid_utf8` models it) and then decodes them.
#[verifier::external_body]
fn bytes_as_utf8(v: &[u8]) -> (r: Option<&str>)
    ensures
        r is Some <==> valid_utf8(v@),
        r matches Some(s) ==> s@ == decode_utf8(v@),
{
    std::str::from_utf8(v).ok()
}

/// Decides `is_space` at run time by the same list of code points.
fn is_whitespace_char(c: char) -> (r: bool)
    ensures
        r == is_space(c),
{
    let u = c as u32;
    u == 0x09 || u == 0x0A || u == 0x0B || u == 0x0C || u == 0x0D || u == 0x20 || u == 0x85
        || u == 0xA0 || u == 0x1680 || (0x2000 <= u && u <= 0x200A) || u == 0x2028 || u == 0x2029
        || u == 0x202F || u == 0x205F || u == 0x3000
}

impl Cryptor {
    /// Number of bytes held.
    pub fn len(&self) -> (r: usize)
        ensures
            r == self@.len(),
    {
        self.byte_data.len()
    }

    /// Builds a buffer from text: the bytes are the text's UTF-8 encoding.
    /// Any text encodes, so this cannot fail.
    pub fn from_text(text: &str) -> (r: Cryptor)
        ensures
            r@ == encode_utf8(text@),
    {
        Cryptor { byte_data: text.as_bytes_vec() }
    }

    /// Views the bytes as UTF-8 text without copying or mutating them.
    /// Fails with `ParseError` exactly when they are not valid UTF-8.
    pub fn to_utf8_string(&self) -> (r: Result<&str, CryptorError>)
        ensures
            match r {
                Ok(s) => valid_utf8(self@) && s@ == decode_utf8(self@),
                Err(e) => !valid_utf8(self@) && e == CryptorError::ParseError,
            },
    {
        match bytes_as_utf8(self.byte_data.as_slice()) {
            Some(s) => Ok(s),
            None => Err(CryptorError::ParseError),
        }
    }

    /// Wraps a raw byte vector verbatim, e.g. the contents of a file.
    pub fn from_bytes(bytes: Vec<u8>) -> (r: Cryptor)
        ensures
            r@ == bytes@,
    {
        Cryptor { byte_data: bytes }
    }

    /// Gives up the buffer as a raw byte vector, e.g. to be written to a file.
    pub fn into_bytes(self) -> (r: Vec<u8>)
        ensures
            r@ == self@,
    {
        self.byte_data
    }

    /// Borrows the bytes held.
    pub fn as_bytes(&self) -> (r: &[u8])
        ensures
            r@ == self@,
    {
        self.byte_data.as_slice()
    }

    /// Renders the buffer as binary-digit text: each byte becomes eight '0'
    /// and '1' characters, most-significant bit first, concatenated in order
    /// with no separators.
    pub fn to_binary_string(&self) -> (r: String)
        ensures
            r@ == bin_text_of(self@),
    {
        let n = self.byte_data.len();
        let mut out = String::new();
        proof {
            assert(self@.take(0) =~= Seq::<u8>::empty());
        }
        for i in 0..n
            invariant
                self@ == self.byte_data@,
                n == self@.len(),
                out@ == bin_text_of(self@.take(i as int)),
        {
            let b = self.byte_data[i];
            let mut j: usize = 0;
            proof {
                assert(bits_of_byte(b).take(0) =~= Seq::<char>::empty());
            }
            while j < 8
                invariant
                    j <= 8,
                    i < n,
                    n == self@.len(),
                    self@ == self.byte_data@,
                    b == self@[i as int],
                    out@ == bin_text_of(self@.take(i as int)) + bits_of_byte(b).take(j as int),
                decreases 8 - j,
            {
                let sh: u8 = (7 - j) as u8;
                let bit: u8 = (b >> sh) & 1;
                if bit == 1 {
                    out.append("1");
                } else {
                    out.append("0");
                }
                proof {
                    reveal_strlit("1");
                    reveal_strlit("0");
                    assert(bits_of_byte(b)[j as int] == char_of_bit(bit));
                    assert(bits_of_byte(b).take(j as int + 1) =~= bits_of_byte(b).take(
                        j as int,
                    ).push(bits_of_byte(b)[j as int]));
                }
                j += 1;
            }
            proof {
                assert(bits_of_byte(b).take(8) =~= bits_of_byte(b));
                assert(self@.take(i as int + 1).drop_last() =~= self@.take(i as int));
                assert(self@.take(i as int + 1).last() == b);
            }
        }
        proof {
            assert(self@.take(n as int) =~= self@);
        }
        out
    }

    /// Parses binary-digit text into a buffer: white space is stripped, the
    /// remaining characters must be '0' and '1' and a multiple of eight, and
    /// each group of eight (most-significant bit first) yields one byte.
    /// Malformed text fails with `NotValid`.
    #[verifier::rlimit(30)]
    pub fn from_binary_string(val: String) -> (r: Result<Cryptor, CryptorError>)
        ensures
            match r {
                Ok(c) => valid_bin_text(strip_spaces(val@)) && c@ == parse_bin_text(
                    strip_spaces(val@),
                ),
                Err(e) => !valid_bin_text(strip_spaces(val@)) && e == CryptorError::NotValid,
            },
    {
        let s = val.as_str();
        let n = s.unicode_len();
        let mut digits: Vec<char> = Vec::new();
        proof {
            reveal(Seq::filter);
            assert(val@.take(0) =~= Seq::<char>::empty());
        }
        for i in 0..n
            invariant
                s@ == val@,
                n == val@.len(),
                digits@ == strip_spaces(val@.take(i as int)),
        {
            let c = s.get_char(i);
            proof {
                lemma_strip_push(val@.take(i as int), c);
                assert(val@.take(i as int + 1) =~= val@.take(i as int).push(c));
            }
            if !is_whitespace_char(c) {
                digits.push(c);
            }
        }
        proof {
            assert(val@.take(n as int) =~= val@);
        }
        if digits.len() % 8 != 0 {
            return Err(CryptorError::NotValid);
        }
        let m = digits.len();
        for i in 0..m
            invariant
                m == digits@.len(),
                digits@ == strip_spaces(val@),
                forall|j: int| 0 <= j < i ==> is_bin_digit(#[trigger] digits@[j]),
        {
            let c = digits[i];
            if !(c == '0' || c == '1') {
                return Err(CryptorError::NotValid);
            }
        }
        let groups = m / 8;
        proof {
            lemma_fundamental_div_mod(m as int, 8);
        }
        let mut out: Vec<u8> = Vec::new();
        for k in 0..groups
            invariant
                m == digits@.len(),
                m % 8 == 0,
                groups == m as int / 8,
                8 * groups as int == m,
                digits@ == strip_spaces(val@),
                out@.len() == k,
                forall|l: int| 0 <= l < k ==> #[trigger] out@[l] == byte_of_bits(
                    digits@.subrange(8 * l, 8 * l + 8),
                ),
        {
            let base = 8 * k;
            let b0: u8 = if digits[base] == '1' { 1 } else { 0 };
            let b1: u8 = if digits[base + 1] == '1' { 1 } else { 0 };
            let b2: u8 = if digits[base + 2] == '1' { 1 } else { 0 };
            let b3: u8 = if digits[base + 3] == '1' { 1 } else { 0 };
            let b4: u8 = if digits[base + 4] == '1' { 1 } else { 0 };
            let b5: u8 = if digits[base + 5] == '1' { 1 } else { 0 };
            let b6: u8 = if digits[base + 6] == '1' { 1 } else { 0 };
            let b7: u8 = if digits[base + 7] == '1' { 1 } else { 0 };
            let byte: u8 = b0 * 128 + b1 * 64 + b2 * 32 + b3 * 16 + b4 * 8 + b5 * 4 + b6 * 2 + b7;
            proof {
                let g = digits@.subrange(8 * k as int, 8 * k as int + 8);
                assert(byte == byte_of_bits(g));
            }
            out.push(byte);
        }
        proof {
            assert(out@ =~= parse_bin_text(strip_spaces(val@)));
        }
        Ok(Cryptor { byte_data: out })
    }

    /// Draws a key of `self`'s length from the chosen generator and masks the
    /// message with it: byte `i` of the ciphertext is `key[i] XOR self[i]`.
    /// The generator owes a key of exactly the right length, so the
    /// `NotSameSize` branch is defensive only and the call always succeeds;
    /// under a fixed-seed generator the key is the stream bound to its seed.
    pub fn encrypt(&self, rng: RngFunctions) -> (r: Result<(Cryptor, Cryptor), CryptorError>)
        ensures
            r is Ok,
            r matches Ok(p) ==> {
                &&& p.0@.len() == self@.len()
                &&& p.1@ == xor_bytes(p.0@, self@)
                &&& (rng.fixed_output(self@.len()) matches Some(s) ==> p.0@ == s)
            },
    {
        let key = rng.generate(self.byte_data.len());
        if key.len() == self.len() {
            let ciphertext = Cryptor { byte_data: xor_with(key.as_bytes(), &self.byte_data) };
            Ok((key, ciphertext))
        } else {
            Err(CryptorError::NotSameSize)
        }
    }

    /// The little-endian byte of an unsigned 8-bit scalar.
    pub fn from_u8(v: u8) -> (r: Cryptor)
        ensures
            r@ == u8_le_bytes(v),
    {
        let mut out: Vec<u8> = Vec::new();
        out.push(v);
        proof {
            assert(out@ =~= u8_le_bytes(v));
        }
        Cryptor { byte_data: out }
    }

    /// The little-endian bytes of an unsigned 16-bit scalar.
    pub fn from_u16(v: u16) -> (r: Cryptor)
        ensures
            r@ == u16_le_bytes(v),
    {
        let mut out: Vec<u8> = Vec::new();
        out.push((v & 0xff) as u8);
        out.push(((v >> 8u16) & 0xff) as u8);
        proof {
            assert(out@ =~= u16_le_bytes(v));
        }
        Cryptor { byte_data: out }
    }

    /// The little-endian bytes of an unsigned 32-bit scalar.
    pub fn from_u32(v: u32) -> (r: Cryptor)
        ensures
            r@ == u32_le_bytes(v),
    {
        let mut out: Vec<u8> = Vec::new();
        out.push((v & 0xff) as u8);
        out.push(((v >> 8u32) & 0xff) as u8);
        out.push(((v >> 16u32) & 0xff) as u8);
        out.push(((v >> 24u32) & 0xff) as u8);
        proof {
            assert(out@ =~= u32_le_bytes(v));
        }
        Cryptor { byte_data: out }
    }

    /// The little-endian bytes of an unsigned 64-bit scalar.
    pub fn from_u64(v: u64) -> (r: Cryptor)
        ensures
            r@ == u64_le_bytes(v),
    {
        let mut out: Vec<u8> = Vec::new();
        out.push((v & 0xff) as u8);
        out.push(((v >> 8u64) & 0xff) as u8);
        out.push(((v >> 16u64) & 0xff) as u8);
        out.push(((v >> 24u64) & 0xff) as u8);
        out.push(((v >> 32u64) & 0xff) as u8);
        out.push(((v >> 40u64) & 0xff) as u8);
        out.push(((v >> 48u64) & 0xff) as u8);
        out.push(((v >> 56u64) & 0xff) as u8);
        proof {
            assert(out@ =~= u64_le_bytes(v));
        }
        Cryptor { byte_data: out }
    }

    /// The little-endian bytes of an unsigned 128-bit scalar.
    pub fn from_u128(v: u128) -> (r: Cryptor)
        ensures
            r@ == u128_le_bytes(v),
    {
        let mut out: Vec<u8> = Vec::new();
        out.push((v & 0xff) as u8);
        out.push(((v >> 8u128) & 0xff) as u8);
        out.push(((v >> 16u128) & 0xff) as u8);
        out.push(((v >> 24u128) & 0xff) as u8);
        out.push(((v >> 32u128) & 0xff) as u8);
        out.push(((v >> 40u128) & 0xff) as u8);
        out.push(((v >> 48u128) & 0xff) as u8);
        out.push(((v >> 56u128) & 0xff) as u8);
        out.push(((v >> 64u128) & 0xff) as u8);
        out.push(((v >> 72u128) & 0xff) as u8);
        out.push(((v >> 80u128) & 0xff) as u8);
        out.push(((v >> 88u128) & 0xff) as u8);
        out.push(((v >> 96u128) & 0xff) as u8);
        out.push(((v >> 104u128) & 0xff) as u8);
        out.push(((v >> 112u128) & 0xff) as u8);
        out.push(((v >> 120u128) & 0xff) as u8);
        proof {
            assert(out@ =~= u128_le_bytes(v));
        }
        Cryptor { byte_data: out }
    }

    /// The little-endian bytes of a pointer-sized unsigned scalar, widened
    /// to 64 bits.
    pub fn from_usize(v: usize) -> (r: Cryptor)
        ensures
            r@ == u64_le_bytes(v as u64),
    {
        Cryptor::from_u64(v as u64)
    }

    /// The little-endian bytes of a signed 8-bit scalar (two's complement).
    pub fn from_i8(v: i8) -> (r: Cryptor)
        ensures
            r@ == u8_le_bytes(v as u8),
    {
        Cryptor::from_u8(v as u8)
    }

    /// The little-endian bytes of a signed 16-bit scalar (two's complement).
    pub fn from_i16(v: i16) -> (r: Cryptor)
        ensures
            r@ == u16_le_bytes(v as u16),
    {
        Cryptor::from_u16(v as u16)
    }

    /// The little-endian bytes of a signed 32-bit scalar (two's complement).
    pub fn from_i32(v: i32) -> (r: Cryptor)
        ensures
            r@ == u32_le_bytes(v as u32),
    {
        Cryptor::from_u32(v as u32)
    }

    /// The little-endian bytes of a signed 64-bit scalar (two's complement).
    pub fn from_i64(v: i64) -> (r: Cryptor)
        ensures
            r@ == u64_le_bytes(v as u64),
    {
        Cryptor::from_u64(v as u64)
    }

    /// The little-endian bytes of a signed 128-bit scalar (two's complement).
    pub fn from_i128(v: i128) -> (r: Cryptor)
        ensures
            r@ == u128_le_bytes(v as u128),
    {
        Cryptor::from_u128(v as u128)
    }

    /// The little-endian bytes of a pointer-sized signed scalar (two's
    /// complement), widened to 64 bits.
    pub fn from_isize(v: isize) -> (r: Cryptor)
        ensures
            r@ == u64_le_bytes(v as u64),
    {
        Cryptor::from_u64(v as u64)
    }

    /// Flattens a sequence of buffers into one, concatenating their bytes in
    /// order.
    pub fn from_parts(parts: Vec<Cryptor>) -> (r: Cryptor)
        ensures
            r@ == concat_views(views_of(parts@)),
    {
        let n = parts.len();
        let mut out: Vec<u8> = Vec::new();
        proof {
            assert(views_of(parts@.take(0)) =~= Seq::<Seq<u8>>::empty());
        }
        for i in 0..n
            invariant
                n == parts@.len(),
                out@ == concat_views(views_of(parts@.take(i as int))),
        {
            out.extend_from_slice(parts[i].byte_data.as_slice());
            proof {
                assert(views_of(parts@.take(i as int + 1)).drop_last() =~= views_of(
                    parts@.take(i as int),
                ));
                assert(views_of(parts@.take(i as int + 1)).last() == parts@[i as int]@);
            }
        }
        proof {
            assert(parts@.take(n as int) =~= parts@);
        }
        Cryptor { byte_data: out }
    }

    /// Recovers the message from a ciphertext (`self`) and its key: byte `i`
    /// of the result is `key[i] XOR self[i]`. Fails with `NotSameSize` when
    /// the lengths differ; a mismatch is never resolved by truncation or
    /// padding, which would break the one-time-pad property.
    pub fn decrypt(&self, key: Cryptor) -> (r: Result<Cryptor, CryptorError>)
        ensures
            match r {
                Ok(m) => key@.len() == self@.len() && m@ == xor_bytes(key@, self@),
                Err(e) => key@.len() != self@.len() && e == CryptorError::NotSameSize,
            },
    {
        if key.byte_data.len() == self.byte_data.len() {
            Ok(Cryptor { byte_data: xor_with(key.byte_data.as_slice(), &self.byte_data) })
        } else {
            Err(CryptorError::NotSameSize)
        }
    }
}

/// Byte-wise XOR of two equal-length buffers.
fn xor_with(a: &[u8], b: &Vec<u8>) -> (r: Vec<u8>)
    requires
        a@.len() == b@.len(),
    ensures
        r@ == xor_bytes(a@, b@),
{
    let n = a.len();
    let mut out: Vec<u8> = Vec::new();
    for i in 0..n
        invariant
            n == a@.len(),
            a@.len() == b@.len(),
            out@.len() == i,
            forall|j: int| 0 <= j < i ==> out@[j] == (a@[j] ^ b@[j]),
    {
        out.push(a[i] ^ b[i]);
    }
    proof {
        assert(out@ =~= xor_bytes(a@, b@));
    }
    out
}

} // verus!
