//! The integrity signer: hashes of recordings, signatures over results, and
//! the key that signs them.
//!
//! A signature is the HMAC-SHA256, in hexadecimal, of one line of text that
//! names the challenge, the keystrokes, the time, the instant and the hash of
//! the recording. It is a tamper detector for a stored record and nothing
//! more: the same record always gets the same signature.

use vstd::prelude::*;
use vstd::string::*;
use vstd::utf8::{
    encode_utf8, encode_utf8_decode_utf8, is_ascii_chars, is_ascii_chars_encode_utf8,
};
use hmac::Mac;
use sha2::Digest;
use crate::text::{
    decimal, hex_text, lemma_decimal_injective, lemma_hex_text_injective, lemma_middle_decides,
    push_char, push_decimal,
};

verus! {

/// The version of the signing key, stored beside each signature so that keys
/// can be rotated later.
pub const SIGNATURE_VERSION: u32 = 1;

/// The byte that the stored key is masked with.
pub const OBFUSCATION_KEY: u8 = 0x5A;

/// The fewest bytes that a production key may have.
pub const MIN_PRODUCTION_KEY_BYTES: usize = 32;

/// The SHA-256 digest of a byte sequence, as the `sha2` crate computes it.
pub uninterp spec fn sha256(data: Seq<u8>) -> Seq<u8>;

/// The HMAC-SHA256 of a message under a key, as the `hmac` crate computes it.
pub uninterp spec fn hmac_sha256(key: Seq<u8>, message: Seq<u8>) -> Seq<u8>;

/// The SHA-256 digest of `data`.
///
/// Feeds `data` to a fresh `sha2::Sha256` and takes the digest, which depends
/// on the data alone and has 32 bytes.
#[verifier::external_body]
fn sha256_digest(data: &[u8]) -> (digest: Vec<u8>)
    ensures
        digest@ == sha256(data@),
        digest@.len() == 32,
{
    let mut hasher = sha2::Sha256::new();
    hasher.update(data);
    hasher.finalize().to_vec()
}

/// The HMAC-SHA256 of `message` under `key`.
///
/// Makes a `hmac::Hmac<sha2::Sha256>` from the key, which takes a key of any
/// length, feeds it the message and takes the code, which depends on key and
/// message alone and has 32 bytes.
#[verifier::external_body]
fn hmac_sha256_code(key: &[u8], message: &[u8]) -> (code: Vec<u8>)
    ensures
        code@ == hmac_sha256(key@, message@),
        code@.len() == 32,
{
    let mut mac = hmac::Hmac::<sha2::Sha256>::new_from_slice(key).expect(
        "HMAC takes a key of any length",
    );
    mac.update(message);
    mac.finalize().into_bytes().to_vec()
}

/// The hexadecimal form of `bytes`.
///
/// Calls `hex::encode`, which writes two digits in lower case for each byte,
/// the high half first.
#[verifier::external_body]
fn hex_encode(bytes: &[u8]) -> (text: String)
    ensures
        text@ == hex_text(bytes@),
{
    hex::encode(bytes)
}

/// The value of a hexadecimal digit, in either case.
pub open spec fn hex_value(c: char) -> Option<nat> {
    if '0' <= c <= '9' {
        Some((c as u32 - 48) as nat)
    } else if 'a' <= c <= 'f' {
        Some((c as u32 - 87) as nat)
    } else if 'A' <= c <= 'F' {
        Some((c as u32 - 55) as nat)
    } else {
        None
    }
}

/// Whether a text is the hexadecimal form of some bytes: an even number of
/// hexadecimal digits.
pub open spec fn is_hex_text(text: Seq<char>) -> bool {
    text.len() % 2 == 0 && forall|i: int| 0 <= i < text.len() ==> hex_value(#[trigger] text[i])
        is Some
}

/// The bytes that a hexadecimal text stands for.
pub open spec fn bytes_of_hex(text: Seq<char>) -> Seq<u8> {
    Seq::new(
        text.len() / 2,
        |i: int| (16 * hex_value(text[2 * i])->0 + hex_value(text[2 * i + 1])->0) as u8,
    )
}

/// The bytes that a hexadecimal text stands for; none where the text is not
/// hexadecimal.
///
/// Calls `hex::decode`, which fails on an odd number of bytes and on every
/// byte that is no hexadecimal digit, and otherwise makes one byte of each
/// two digits, the high half first.
#[verifier::external_body]
fn hex_decode(text: &str) -> (bytes: Option<Vec<u8>>)
    ensures
        bytes is Some <==> is_hex_text(text@),
        bytes is Some ==> bytes->0@ == bytes_of_hex(text@),
{
    hex::decode(text).ok()
}

/// A byte with the mask applied. Applying the mask twice gives the byte back.
pub open spec fn masked(byte: u8) -> u8 {
    byte ^ OBFUSCATION_KEY
}

/// A byte sequence with the mask applied to every byte.
pub open spec fn masked_bytes(bytes: Seq<u8>) -> Seq<u8> {
    bytes.map_values(|b: u8| masked(b))
}

/// Masking twice gives the bytes back.
pub proof fn lemma_mask_twice(bytes: Seq<u8>)
    ensures
        masked_bytes(masked_bytes(bytes)) == bytes,
{
    assert forall|i: int| 0 <= i < bytes.len() implies masked(masked(bytes[i])) == bytes[i] by {
        let b = bytes[i];
        assert((b ^ 0x5Au8) ^ 0x5Au8 == b) by (bit_vector);
    }
    assert(masked_bytes(masked_bytes(bytes)) =~= bytes);
}

/// The mask applied to every byte of `bytes`.
fn mask_bytes(bytes: &[u8]) -> (out: Vec<u8>)
    ensures
        out@ == masked_bytes(bytes@),
{
    let mut out: Vec<u8> = Vec::new();
    let mut i: usize = 0;
    while i < bytes.len()
        invariant
            0 <= i <= bytes.len(),
            out@ == masked_bytes(bytes@.take(i as int)),
        decreases bytes.len() - i,
    {
        out.push(bytes[i] ^ OBFUSCATION_KEY);
        assert(masked_bytes(bytes@.take(i + 1)) =~= masked_bytes(bytes@.take(i as int)).push(
            masked(bytes[i as int]),
        ));
        i = i + 1;
    }
    assert(bytes@.take(i as int) =~= bytes@);
    out
}

/// The development key as it is stored: every byte masked.
pub open spec fn stored_development_key() -> Seq<u8> {
    seq![
        0x3eu8, 0x3f, 0x2c, 0x05, 0x33, 0x34, 0x29, 0x3f, 0x39, 0x2f, 0x28, 0x3f, 0x05, 0x31, 0x3f,
        0x23, 0x05, 0x3e, 0x35, 0x05, 0x34, 0x35, 0x2e, 0x05, 0x2f, 0x29, 0x3f, 0x05, 0x33, 0x34,
        0x05, 0x2a, 0x28, 0x35, 0x3e, 0x2f, 0x39, 0x2e, 0x33, 0x35, 0x34, 0x05, 0x6a, 0x6b, 0x68,
        0x69, 0x6e, 0x6f, 0x6c, 0x6d, 0x62, 0x63, 0x3b, 0x38, 0x39, 0x3e, 0x3f, 0x3c,
    ]
}

/// The development key: insecure, the same in every build, and used wherever
/// no production key was provisioned.
pub open spec fn development_key() -> Seq<u8> {
    masked_bytes(stored_development_key())
}

/// The text that the development key is the UTF-8 form of.
pub open spec fn development_key_text() -> Seq<char> {
    "dev_insecure_key_do_not_use_in_production_0123456789abcdef"@
}

/// The development key is the UTF-8 form of its text: the bytes that are
/// stored are those of the text, each masked.
pub proof fn lemma_development_key_is_its_text()
    ensures
        development_key() == encode_utf8(development_key_text()),
{
    reveal_strlit("dev_insecure_key_do_not_use_in_production_0123456789abcdef");
    let text = development_key_text();
    let stored = stored_development_key();
    assert(text.len() == 58);
    assert(stored.len() == 58);
    assert(is_ascii_chars(text));
    is_ascii_chars_encode_utf8(text);
    assert forall|i: int| 0 <= i < 58 implies masked(#[trigger] stored[i]) == text[i] as u8 by {
        assert(0x3eu8 ^ 0x5Au8 == 0x64u8 && 0x3fu8 ^ 0x5Au8 == 0x65u8 && 0x2cu8 ^ 0x5Au8 == 0x76u8
            && 0x05u8 ^ 0x5Au8 == 0x5fu8 && 0x33u8 ^ 0x5Au8 == 0x69u8 && 0x34u8 ^ 0x5Au8 == 0x6eu8
            && 0x29u8 ^ 0x5Au8 == 0x73u8 && 0x39u8 ^ 0x5Au8 == 0x63u8 && 0x2fu8 ^ 0x5Au8 == 0x75u8
            && 0x28u8 ^ 0x5Au8 == 0x72u8 && 0x31u8 ^ 0x5Au8 == 0x6bu8 && 0x23u8 ^ 0x5Au8 == 0x79u8
            && 0x35u8 ^ 0x5Au8 == 0x6fu8 && 0x2eu8 ^ 0x5Au8 == 0x74u8 && 0x2au8 ^ 0x5Au8 == 0x70u8
            && 0x6au8 ^ 0x5Au8 == 0x30u8 && 0x6bu8 ^ 0x5Au8 == 0x31u8 && 0x68u8 ^ 0x5Au8 == 0x32u8
            && 0x69u8 ^ 0x5Au8 == 0x33u8 && 0x6eu8 ^ 0x5Au8 == 0x34u8 && 0x6fu8 ^ 0x5Au8 == 0x35u8
            && 0x6cu8 ^ 0x5Au8 == 0x36u8 && 0x6du8 ^ 0x5Au8 == 0x37u8 && 0x62u8 ^ 0x5Au8 == 0x38u8
            && 0x63u8 ^ 0x5Au8 == 0x39u8 && 0x3bu8 ^ 0x5Au8 == 0x61u8 && 0x38u8 ^ 0x5Au8 == 0x62u8
            && 0x3cu8 ^ 0x5Au8 == 0x66u8) by (bit_vector);
    }
    assert(development_key() =~= encode_utf8(text));
}

/// Why a key could not be provisioned.
#[derive(Debug, Clone, Copy, PartialEq, Eq, Structural)]
pub enum KeyError {
    /// The production secret is hexadecimal but stands for too few bytes.
    TooShort,
}

/// A signing key as provisioned: the bytes, stored masked, and whether they
/// came from a production secret.
#[derive(Debug)]
pub struct SigningKey {
    stored: Vec<u8>,
    production: bool,
}

/// The key material that a secret gives: the bytes that it stands for where
/// it is hexadecimal and long enough, the bytes of its text where it is not
/// hexadecimal; a hexadecimal secret that is too short gives none.
pub open spec fn key_material(secret: Seq<char>) -> Option<Seq<u8>> {
    if is_hex_text(secret) {
        if bytes_of_hex(secret).len() >= MIN_PRODUCTION_KEY_BYTES {
            Some(bytes_of_hex(secret))
        } else {
            None
        }
    } else {
        Some(encode_utf8(secret))
    }
}

impl SigningKey {
    /// The key itself, unmasked.
    pub closed spec fn key(&self) -> Seq<u8> {
        masked_bytes(self.stored@)
    }

    /// Whether the key came from a production secret.
    pub closed spec fn production(&self) -> bool {
        self.production
    }

    /// The development key.
    pub fn development() -> (key: SigningKey)
        ensures
            key.key() == development_key(),
            !key.production(),
    {
        let stored: Vec<u8> = vec![
            0x3eu8, 0x3f, 0x2c, 0x05, 0x33, 0x34, 0x29, 0x3f, 0x39, 0x2f, 0x28, 0x3f, 0x05, 0x31,
            0x3f, 0x23, 0x05, 0x3e, 0x35, 0x05, 0x34, 0x35, 0x2e, 0x05, 0x2f, 0x29, 0x3f, 0x05,
            0x33, 0x34, 0x05, 0x2a, 0x28, 0x35, 0x3e, 0x2f, 0x39, 0x2e, 0x33, 0x35, 0x34, 0x05,
            0x6a, 0x6b, 0x68, 0x69, 0x6e, 0x6f, 0x6c, 0x6d, 0x62, 0x63, 0x3b, 0x38, 0x39, 0x3e,
            0x3f, 0x3c,
        ];
        assert(stored@ =~= stored_development_key());
        SigningKey { stored, production: false }
    }

    /// Provisions a key. With a production secret the key is made of the
    /// secret: of the bytes that it stands for where it is hexadecimal, which
    /// must then be at least 32, else of the bytes of its text. Without one
    /// the key is the development key.
    pub fn provision(secret: Option<&str>) -> (key: Result<SigningKey, KeyError>)
        ensures
            match secret {
                Some(text) => match key_material(text@) {
                    Some(material) => key is Ok && key->Ok_0.key() == material
                        && key->Ok_0.production(),
                    None => key == Err::<SigningKey, KeyError>(KeyError::TooShort),
                },
                None => key is Ok && key->Ok_0.key() == development_key()
                    && !key->Ok_0.production(),
            },
    {
        match secret {
            None => Ok(Self::development()),
            Some(text) => {
                let material = match hex_decode(text) {
                    Some(bytes) => {
                        if bytes.len() >= MIN_PRODUCTION_KEY_BYTES {
                            bytes
                        } else {
                            return Err(KeyError::TooShort);
                        }
                    },
                    None => crate::text::bytes_of(text),
                };
                let stored = mask_bytes(material.as_slice());
                proof {
                    lemma_mask_twice(material@);
                }
                Ok(SigningKey { stored, production: true })
            },
        }
    }

    /// Whether the key came from a production secret.
    pub fn is_production(&self) -> (production: bool)
        ensures
            production == self.production(),
    {
        self.production
    }

    /// The key itself, unmasked.
    pub fn unmasked(&self) -> (key: Vec<u8>)
        ensures
            key@ == self.key(),
    {
        mask_bytes(self.stored.as_slice())
    }
}

/// The key that this build signs with.
pub fn get_signing_key() -> (key: Vec<u8>)
    ensures
        key@ == development_key(),
{
    SigningKey::development().unmasked()
}

/// Whether this build signs with a production key. It does not: the key that
/// is built in is the development key.
pub fn is_production_build() -> (production: bool)
    ensures
        !production,
{
    false
}

/// The line of text that a signature covers:
/// `challenge_id|strokes|time_ms|timestamp|recording_hash`.
pub open spec fn canonical_message(
    challenge_id: Seq<char>,
    strokes: u32,
    time_ms: u64,
    timestamp: Seq<char>,
    recording_hash: Seq<char>,
) -> Seq<char> {
    challenge_id + seq!['|'] + decimal(strokes as nat) + seq!['|'] + decimal(time_ms as nat)
        + seq!['|'] + timestamp + seq!['|'] + recording_hash
}

/// The signature of a result under a key: the HMAC-SHA256 of the canonical
/// message, in hexadecimal.
pub open spec fn signature_text(
    key: Seq<u8>,
    challenge_id: Seq<char>,
    strokes: u32,
    time_ms: u64,
    timestamp: Seq<char>,
    recording_hash: Seq<char>,
) -> Seq<char> {
    hex_text(
        hmac_sha256(
            key,
            encode_utf8(
                canonical_message(challenge_id, strokes, time_ms, timestamp, recording_hash),
            ),
        ),
    )
}

/// The hash of a recording: the SHA-256 digest of its content, in
/// hexadecimal.
pub open spec fn file_hash_text(contents: Seq<u8>) -> Seq<char> {
    hex_text(sha256(contents))
}

/// The hash of a recording with the given content.
pub fn calculate_file_hash(contents: &[u8]) -> (hash: String)
    ensures
        hash@ == file_hash_text(contents@),
        hash@.len() == 64,
{
    let digest = sha256_digest(contents);
    hex_encode(digest.as_slice())
}

/// The canonical message of a result.
fn build_message(
    challenge_id: &str,
    strokes: u32,
    time_ms: u64,
    timestamp: &str,
    recording_hash: &str,
) -> (message: String)
    ensures
        message@ == canonical_message(
            challenge_id@,
            strokes,
            time_ms,
            timestamp@,
            recording_hash@,
        ),
{
    let mut message = challenge_id.to_string();
    push_char(&mut message, '|');
    push_decimal(&mut message, strokes as u128);
    push_char(&mut message, '|');
    push_decimal(&mut message, time_ms as u128);
    push_char(&mut message, '|');
    message.append(timestamp);
    push_char(&mut message, '|');
    message.append(recording_hash);
    assert(message@ =~= canonical_message(
        challenge_id@,
        strokes,
        time_ms,
        timestamp@,
        recording_hash@,
    ));
    message
}

/// Signs a result under `key`. The same inputs always give the same
/// signature.
pub fn sign_with_key(
    key: &[u8],
    challenge_id: &str,
    strokes: u32,
    time_ms: u64,
    timestamp: &str,
    recording_hash: &str,
) -> (signature: String)
    ensures
        signature@ == signature_text(
            key@,
            challenge_id@,
            strokes,
            time_ms,
            timestamp@,
            recording_hash@,
        ),
        signature@.len() == 64,
{
    let message = build_message(challenge_id, strokes, time_ms, timestamp, recording_hash);
    let code = hmac_sha256_code(key, message.as_str().as_bytes());
    hex_encode(code.as_slice())
}

/// Signs a result under the key of this build. The same inputs always give
/// the same signature.
pub fn sign_result(
    challenge_id: &str,
    strokes: u32,
    time_ms: u64,
    timestamp: &str,
    recording_hash: &str,
) -> (signature: String)
    ensures
        signature@ == signature_text(
            development_key(),
            challenge_id@,
            strokes,
            time_ms,
            timestamp@,
            recording_hash@,
        ),
        signature@.len() == 64,
{
    let key = get_signing_key();
    sign_with_key(key.as_slice(), challenge_id, strokes, time_ms, timestamp, recording_hash)
}

/// Whether two strings hold the same text, found out in a time that depends
/// on their lengths alone: every byte is looked at, whatever the bytes
/// before it were.
pub fn constant_time_compare(a: &str, b: &str) -> (same: bool)
    ensures
        same == (a@ == b@),
{
    let x = a.as_bytes();
    let y = b.as_bytes();
    proof {
        encode_utf8_decode_utf8(a@);
        encode_utf8_decode_utf8(b@);
    }
    if x.len() != y.len() {
        return false;
    }
    let mut diff: u8 = 0;
    let mut i: usize = 0;
    while i < x.len()
        invariant
            0 <= i <= x.len(),
            x.len() == y.len(),
            diff == 0 <==> forall|j: int| 0 <= j < i ==> x@[j] == y@[j],
        decreases x.len() - i,
    {
        let before = diff;
        let p = x[i];
        let q = y[i];
        diff = diff | (p ^ q);
        assert(((before | (p ^ q)) == 0u8) <==> (before == 0u8 && p == q)) by (bit_vector);
        i = i + 1;
    }
    if diff == 0 {
        assert(x@ =~= y@);
    }
    diff == 0
}

/// Whether `signature` is the signature of the result under `key`.
pub fn verify_with_key(
    key: &[u8],
    challenge_id: &str,
    strokes: u32,
    time_ms: u64,
    timestamp: &str,
    recording_hash: &str,
    signature: &str,
) -> (valid: bool)
    ensures
        valid == (signature@ == signature_text(
            key@,
            challenge_id@,
            strokes,
            time_ms,
            timestamp@,
            recording_hash@,
        )),
{
    let expected = sign_with_key(key, challenge_id, strokes, time_ms, timestamp, recording_hash);
    constant_time_compare(expected.as_str(), signature)
}

/// Whether `signature` is the signature of the result under the key of this
/// build. The version is kept for key rotation and decides nothing yet.
pub fn verify_signature(
    challenge_id: &str,
    strokes: u32,
    time_ms: u64,
    timestamp: &str,
    recording_hash: &str,
    signature: &str,
    signature_version: u32,
) -> (valid: bool)
    ensures
        valid == (signature@ == signature_text(
            development_key(),
            challenge_id@,
            strokes,
            time_ms,
            timestamp@,
            recording_hash@,
        )),
{
    let key = get_signing_key();
    verify_with_key(
        key.as_slice(),
        challenge_id,
        strokes,
        time_ms,
        timestamp,
        recording_hash,
        signature,
    )
}

/// Whether a recording still has the hash that was stored for it. A
/// recording that is not there does not: that is an answer, not an error.
pub fn verify_recording_hash(contents: Option<&[u8]>, expected_hash: &str) -> (matches: bool)
    ensures
        matches == (contents is Some && file_hash_text(contents->0@) == expected_hash@),
{
    match contents {
        None => false,
        Some(bytes) => {
            let actual_hash = calculate_file_hash(bytes);
            constant_time_compare(actual_hash.as_str(), expected_hash)
        },
    }
}

/// The five fields that a signature covers.
pub struct SignedFields {
    pub challenge_id: Seq<char>,
    pub strokes: u32,
    pub time_ms: u64,
    pub timestamp: Seq<char>,
    pub recording_hash: Seq<char>,
}

impl SignedFields {
    /// The canonical message of the fields.
    pub open spec fn message(self) -> Seq<char> {
        canonical_message(
            self.challenge_id,
            self.strokes,
            self.time_ms,
            self.timestamp,
            self.recording_hash,
        )
    }

    /// The signature of the fields under `key`.
    pub open spec fn signature(self, key: Seq<u8>) -> Seq<char> {
        signature_text(
            key,
            self.challenge_id,
            self.strokes,
            self.time_ms,
            self.timestamp,
            self.recording_hash,
        )
    }

    /// Whether `self` and `other` differ, and in one field only.
    pub open spec fn differs_in_one_field(self, other: SignedFields) -> bool {
        ||| other == (SignedFields { challenge_id: other.challenge_id, ..self })
            && other.challenge_id != self.challenge_id
        ||| other == (SignedFields { strokes: other.strokes, ..self }) && other.strokes
            != self.strokes
        ||| other == (SignedFields { time_ms: other.time_ms, ..self }) && other.time_ms
            != self.time_ms
        ||| other == (SignedFields { timestamp: other.timestamp, ..self }) && other.timestamp
            != self.timestamp
        ||| other == (SignedFields { recording_hash: other.recording_hash, ..self })
            && other.recording_hash != self.recording_hash
    }
}

/// Changing any single field of a result changes the message that is signed.
pub proof fn lemma_single_change_changes_message(signed: SignedFields, changed: SignedFields)
    requires
        signed.differs_in_one_field(changed),
    ensures
        signed.message() != changed.message(),
        encode_utf8(signed.message()) != encode_utf8(changed.message()),
{
    let bar = seq!['|'];
    let id = signed.challenge_id;
    let ks = decimal(signed.strokes as nat);
    let ms = decimal(signed.time_ms as nat);
    let ts = signed.timestamp;
    let rh = signed.recording_hash;
    if signed.message() == changed.message() {
        if changed.challenge_id != id {
            let after = bar + ks + bar + ms + bar + ts + bar + rh;
            assert(signed.message() =~= Seq::<char>::empty() + id + after);
            assert(changed.message() =~= Seq::<char>::empty() + changed.challenge_id + after);
            lemma_middle_decides(Seq::empty(), id, changed.challenge_id, after);
        } else if changed.strokes != signed.strokes {
            let before = id + bar;
            let after = bar + ms + bar + ts + bar + rh;
            let other = decimal(changed.strokes as nat);
            assert(signed.message() =~= before + ks + after);
            assert(changed.message() =~= before + other + after);
            lemma_middle_decides(before, ks, other, after);
            lemma_decimal_injective(signed.strokes as nat, changed.strokes as nat);
        } else if changed.time_ms != signed.time_ms {
            let before = id + bar + ks + bar;
            let after = bar + ts + bar + rh;
            let other = decimal(changed.time_ms as nat);
            assert(signed.message() =~= before + ms + after);
            assert(changed.message() =~= before + other + after);
            lemma_middle_decides(before, ms, other, after);
            lemma_decimal_injective(signed.time_ms as nat, changed.time_ms as nat);
        } else if changed.timestamp != ts {
            let before = id + bar + ks + bar + ms + bar;
            let after = bar + rh;
            assert(signed.message() =~= before + ts + after);
            assert(changed.message() =~= before + changed.timestamp + after);
            lemma_middle_decides(before, ts, changed.timestamp, after);
        } else {
            let before = id + bar + ks + bar + ms + bar + ts + bar;
            assert(signed.message() =~= before + rh + Seq::<char>::empty());
            assert(changed.message() =~= before + changed.recording_hash + Seq::<
                char,
            >::empty());
            lemma_middle_decides(before, rh, changed.recording_hash, Seq::empty());
        }
        assert(false);
    }
    encode_utf8_decode_utf8(signed.message());
    encode_utf8_decode_utf8(changed.message());
}

/// A signature is accepted for a record exactly when the codes of the two
/// messages are the same. So a record of which a single field was changed
/// after signing is rejected, unless HMAC-SHA256 gives two different messages
/// the same code under the key.
pub proof fn lemma_tampering_is_rejected(
    key: Seq<u8>,
    signed: SignedFields,
    changed: SignedFields,
)
    requires
        signed.differs_in_one_field(changed),
    ensures
        encode_utf8(signed.message()) != encode_utf8(changed.message()),
        changed.signature(key) == signed.signature(key) <==> hmac_sha256(
            key,
            encode_utf8(changed.message()),
        ) == hmac_sha256(key, encode_utf8(signed.message())),
{
    lemma_single_change_changes_message(signed, changed);
    if changed.signature(key) == signed.signature(key) {
        lemma_hex_text_injective(
            hmac_sha256(key, encode_utf8(changed.message())),
            hmac_sha256(key, encode_utf8(signed.message())),
        );
    }
}

} // verus!
