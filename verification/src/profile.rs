//! The user's settings.

use crate::api::ApiEndpoints;
use crate::codec::{base64_decoded, base64_text, decode_base64, encode_base64, text_of_utf8};
use crate::digest::{blake3_hash, hash_bytes, hex_upper, upper_hex_text};
use crate::text::{chars_of, starts_with, string_of_range};
use vstd::prelude::*;
use vstd::string::StringExecFns;
use vstd::utf8::{decode_utf8, encode_utf8, valid_utf8};

verus! {

/// The settings of one user.
#[derive(Debug, Clone)]
pub struct Profile {
    pub api_key: Option<String>,
    pub language: String,
    pub model: Option<String>,
    pub font: Option<String>,
    pub theme: String,
    pub total_credits_used: u64,
    pub storage_url: String,
    pub ocr_url: String,
    pub translate_url: String,
    pub storage_urls: String,
    /// Extra request headers for the storage address, as the text of a JSON object.
    pub storage_headers: String,
    /// Extra request headers for the OCR address, as the text of a JSON object.
    pub ocr_headers: String,
    pub save_debug_json: bool,
    /// `off` keeps nothing in the cache store, `remote` allows its synchronisation.
    pub database_mode: String,
    pub remote_db_url: String,
    pub remote_db_token: String,
    pub remote_db_user: String,
    pub remote_db_pass: String,
}

/// The address of the storage service where none is set.
pub fn default_storage_url() -> (url: String)
    ensures
        url@ == "https://api.toriitranslate.com/api/storage"@,
{
    "https://api.toriitranslate.com/api/storage".to_owned()
}

/// The address of the OCR service where none is set.
pub fn default_ocr_url() -> (url: String)
    ensures
        url@ == "https://api.toriitranslate.com/api/ocr"@,
{
    "https://api.toriitranslate.com/api/ocr".to_owned()
}

/// The address of the translation service where none is set.
pub fn default_translate_url() -> (url: String)
    ensures
        url@ == "https://api.toriitranslate.com/api/upload"@,
{
    "https://api.toriitranslate.com/api/upload".to_owned()
}

impl Default for Profile {
    /// The settings of a new user.
    fn default() -> (profile: Self)
        ensures
            profile.api_key is None,
            profile.language@ == "en"@,
            profile.model is None,
            profile.font matches Some(f) && f@ == "wildwords"@,
            profile.theme@ == "dark"@,
            profile.total_credits_used == 0,
            profile.storage_url@ == "https://api.toriitranslate.com/api/storage"@,
            profile.ocr_url@ == "https://api.toriitranslate.com/api/ocr"@,
            profile.translate_url@ == "https://api.toriitranslate.com/api/upload"@,
            profile.storage_urls@ == Seq::<char>::empty(),
            profile.storage_headers@ == Seq::<char>::empty(),
            profile.ocr_headers@ == Seq::<char>::empty(),
            !profile.save_debug_json,
            profile.database_mode@ == Seq::<char>::empty(),
            profile.remote_db_url@ == Seq::<char>::empty(),
            profile.remote_db_token@ == Seq::<char>::empty(),
            profile.remote_db_user@ == Seq::<char>::empty(),
            profile.remote_db_pass@ == Seq::<char>::empty(),
    {
        Profile {
            api_key: None,
            language: "en".to_owned(),
            model: None,
            font: Some("wildwords".to_owned()),
            theme: "dark".to_owned(),
            total_credits_used: 0,
            storage_url: default_storage_url(),
            ocr_url: default_ocr_url(),
            translate_url: default_translate_url(),
            storage_urls: String::new(),
            storage_headers: String::new(),
            ocr_headers: String::new(),
            save_debug_json: false,
            database_mode: String::new(),
            remote_db_url: String::new(),
            remote_db_token: String::new(),
            remote_db_user: String::new(),
            remote_db_pass: String::new(),
        }
    }
}

/// What XChaCha20-Poly1305 makes of a message under a key and a nonce: the
/// message encrypted, with its tag behind it.
pub uninterp spec fn xchacha_sealed(key: Seq<u8>, nonce: Seq<u8>, message: Seq<u8>) -> Option<
    Seq<u8>,
>;

/// The message that XChaCha20-Poly1305 reads under a key and a nonce from a
/// sealed message; `None` where the tag does not fit.
pub uninterp spec fn xchacha_opened(key: Seq<u8>, nonce: Seq<u8>, sealed: Seq<u8>) -> Option<
    Seq<u8>,
>;

/// The length of a key in bytes.
pub const KEY_LEN: usize = 32;

/// The length of a nonce in bytes.
pub const NONCE_LEN: usize = 24;

/// The length of the tag behind a sealed message in bytes.
pub const TAG_LEN: usize = 16;

/// Calls `XChaCha20Poly1305::new` and `Aead::encrypt`. The sealed message is a
/// function of key, nonce and message.
#[verifier::external_body]
fn seal(key: &Vec<u8>, nonce: &Vec<u8>, message: &[u8]) -> (sealed: Option<Vec<u8>>)
    requires
        key@.len() == KEY_LEN,
        nonce@.len() == NONCE_LEN,
    ensures
        sealed is Some <==> xchacha_sealed(key@, nonce@, message@) is Some,
        sealed matches Some(s) ==> s@ == xchacha_sealed(key@, nonce@, message@).unwrap(),
{
    let cipher = <chacha20poly1305::XChaCha20Poly1305 as chacha20poly1305::KeyInit>::new(
        chacha20poly1305::Key::from_slice(key),
    );
    let nonce = chacha20poly1305::XNonce::from_slice(nonce);
    match chacha20poly1305::aead::Aead::encrypt(&cipher, nonce, message) {
        Ok(sealed) => Some(sealed),
        Err(_) => None,
    }
}

/// Calls `XChaCha20Poly1305::new` and `Aead::decrypt`. The message is a
/// function of key, nonce and sealed message.
#[verifier::external_body]
fn open(key: &Vec<u8>, nonce: &Vec<u8>, sealed: &Vec<u8>) -> (message: Option<Vec<u8>>)
    requires
        key@.len() == KEY_LEN,
        nonce@.len() == NONCE_LEN,
    ensures
        message is Some <==> xchacha_opened(key@, nonce@, sealed@) is Some,
        message matches Some(m) ==> m@ == xchacha_opened(key@, nonce@, sealed@).unwrap(),
{
    let cipher = <chacha20poly1305::XChaCha20Poly1305 as chacha20poly1305::KeyInit>::new(
        chacha20poly1305::Key::from_slice(key),
    );
    let nonce = chacha20poly1305::XNonce::from_slice(nonce);
    match chacha20poly1305::aead::Aead::decrypt(&cipher, nonce, sealed.as_slice()) {
        Ok(message) => Some(message),
        Err(_) => None,
    }
}

/// What stands for the device: its machine identifier, else its host name,
/// else a word that every device shares.
pub fn get_device_fingerprint(machine_id: Option<String>, host_name: Option<String>) -> (id:
    String)
    ensures
        id@ == match machine_id {
            Some(m) => m@,
            None => match host_name {
                Some(h) => h@,
                None => "generic-device"@,
            },
        },
{
    match machine_id {
        Some(m) => m,
        None => match host_name {
            Some(h) => h,
            None => "generic-device".to_owned(),
        },
    }
}

/// The mark in front of a key that this device has encrypted: the first eight
/// bytes of the hash of the device's fingerprint behind `prefix-tag|`, in
/// upper-case hexadecimal, and two colons.
pub open spec fn prefix_text(fingerprint: Seq<char>) -> Seq<char> {
    upper_hex_text(blake3_hash(encode_utf8("prefix-tag|"@ + fingerprint)).take(8)) + "::"@
}

/// The key of the device: the hash of its fingerprint sealed under the hash of
/// the fingerprint and the nonce of zeros, or of that hash itself where
/// nothing could be sealed.
pub open spec fn machine_key_bytes(fingerprint: Seq<char>) -> Seq<u8> {
    let seed = blake3_hash(encode_utf8(fingerprint));
    blake3_hash(
        match xchacha_sealed(seed, Seq::new(NONCE_LEN as nat, |i: int| 0u8), encode_utf8(fingerprint)) {
            Some(sealed) => sealed,
            None => seed,
        },
    )
}

/// The bytes of a number, the lowest first.
pub open spec fn le_bytes(n: u128) -> Seq<u8> {
    Seq::new(16, |i: int| ((n as nat / vstd::arithmetic::power::pow(256, i as nat) as nat) % 256) as u8)
}

/// The nonce for the time `time_nanos`: the first 24 bytes of the hash of the
/// time's bytes.
pub open spec fn nonce_bytes(time_nanos: u128) -> Seq<u8> {
    blake3_hash(le_bytes(time_nanos)).take(NONCE_LEN as int)
}

/// A text encrypted on this device at the time `time_nanos`: behind the
/// device's mark, the nonce and the sealed text in base64. `None` where the
/// text could not be sealed.
pub open spec fn encrypted_text(text: Seq<char>, fingerprint: Seq<char>, time_nanos: u128)
    -> Option<Seq<char>> {
    let nonce = nonce_bytes(time_nanos);
    match xchacha_sealed(machine_key_bytes(fingerprint), nonce, encode_utf8(text)) {
        Some(sealed) => Some(prefix_text(fingerprint) + base64_text(nonce + sealed)),
        None => None,
    }
}

/// The text that a key stored on this device stands for: the key itself
/// unless it bears the device's mark and what follows the mark is base64 for a
/// nonce and a sealed text that opens to valid UTF-8.
pub open spec fn decrypted_text(text: Seq<char>, fingerprint: Seq<char>) -> Seq<char> {
    let prefix = prefix_text(fingerprint);
    if !prefix.is_prefix_of(text) {
        text
    } else {
        match base64_decoded(text.subrange(prefix.len() as int, text.len() as int)) {
            Some(data) => if data.len() < NONCE_LEN + TAG_LEN {
                text
            } else {
                match xchacha_opened(
                    machine_key_bytes(fingerprint),
                    data.take(NONCE_LEN as int),
                    data.skip(NONCE_LEN as int),
                ) {
                    Some(message) => if valid_utf8(message) {
                        decode_utf8(message)
                    } else {
                        text
                    },
                    None => text,
                }
            },
            None => text,
        }
    }
}

/// The first `count` bytes of `bytes`.
fn first_bytes(bytes: &Vec<u8>, count: usize) -> (head: Vec<u8>)
    requires
        count <= bytes@.len(),
    ensures
        head@ == bytes@.take(count as int),
{
    let mut head: Vec<u8> = Vec::new();
    let mut i: usize = 0;
    while i < count
        invariant
            i <= count <= bytes@.len(),
            head@ == bytes@.take(i as int),
        decreases count - i,
    {
        head.push(bytes[i]);
        assert(head@ =~= bytes@.take(i + 1));
        i += 1;
    }
    head
}

/// The bytes of `bytes` from `from` on.
fn bytes_from(bytes: &Vec<u8>, from: usize) -> (tail: Vec<u8>)
    requires
        from <= bytes@.len(),
    ensures
        tail@ == bytes@.skip(from as int),
{
    let mut tail: Vec<u8> = Vec::new();
    let mut i: usize = from;
    while i < bytes.len()
        invariant
            from <= i <= bytes@.len(),
            tail@ == bytes@.subrange(from as int, i as int),
        decreases bytes.len() - i,
    {
        tail.push(bytes[i]);
        assert(tail@ =~= bytes@.subrange(from as int, i + 1));
        i += 1;
    }
    assert(bytes@.subrange(from as int, bytes@.len() as int) =~= bytes@.skip(from as int));
    tail
}

/// The bytes of a number, the lowest first.
pub fn to_le_bytes(n: u128) -> (bytes: Vec<u8>)
    ensures
        bytes@ == le_bytes(n),
{
    let mut bytes: Vec<u8> = Vec::new();
    let mut rest: u128 = n;
    let mut i: usize = 0;
    proof {
        vstd::arithmetic::power::lemma_pow0(256);
        assert(vstd::arithmetic::power::pow(256, 0nat) == 1);
        assert(n as nat / 1 == n as nat);
    }
    while i < 16
        invariant
            i <= 16,
            bytes@.len() == i,
            rest as nat == n as nat / vstd::arithmetic::power::pow(256, i as nat) as nat,
            vstd::arithmetic::power::pow(256, i as nat) > 0,
            forall|k: int| 0 <= k < i ==> bytes@[k] == le_bytes(n)[k],
        decreases 16 - i,
    {
        bytes.push((rest % 256) as u8);
        proof {
            let p = vstd::arithmetic::power::pow(256, i as nat);
            vstd::arithmetic::power::lemma_pow1(256);
            vstd::arithmetic::power::lemma_pow_adds(256, i as nat, 1);
            assert(vstd::arithmetic::power::pow(256, (i + 1) as nat) == p * 256);
            vstd::arithmetic::div_mod::lemma_div_denominator(n as int, p, 256);
            assert(p * 256 > 0) by (nonlinear_arith)
                requires
                    p > 0,
            ;
        }
        rest = rest / 256;
        i += 1;
    }
    assert(bytes@ =~= le_bytes(n));
    bytes
}

impl Profile {
    /// The mark in front of a key that the device with this fingerprint has encrypted.
    pub fn get_prefix(fingerprint: &str) -> (prefix: String)
        ensures
            prefix@ == prefix_text(fingerprint@),
    {
        let mut tagged = "prefix-tag|".to_owned();
        tagged.append(fingerprint);
        let hash = hash_bytes(tagged.as_str().as_bytes());
        let head = first_bytes(&hash, 8);
        let mut prefix = hex_upper(head.as_slice());
        prefix.append("::");
        prefix
    }

    /// The key of the device with this fingerprint.
    pub fn get_machine_key(fingerprint: &str) -> (key: Vec<u8>)
        ensures
            key@ == machine_key_bytes(fingerprint@),
            key@.len() == KEY_LEN,
    {
        let seed = hash_bytes(fingerprint.as_bytes());
        let mut zeros: Vec<u8> = Vec::new();
        let mut i: usize = 0;
        while i < NONCE_LEN
            invariant
                i <= NONCE_LEN,
                zeros@ == Seq::new(i as nat, |k: int| 0u8),
            decreases NONCE_LEN - i,
        {
            zeros.push(0);
            assert(zeros@ =~= Seq::new((i + 1) as nat, |k: int| 0u8));
            i += 1;
        }
        let derived = match seal(&seed, &zeros, fingerprint.as_bytes()) {
            Some(sealed) => sealed,
            None => seed,
        };
        hash_bytes(derived.as_slice())
    }

    /// Encrypts a text on the device with this fingerprint at the time
    /// `time_nanos`, in nanoseconds since the start of 1970.
    pub fn try_encrypt(text: &str, fingerprint: &str, time_nanos: u128) -> (encrypted: Option<
        String,
    >)
        ensures
            encrypted is Some <==> encrypted_text(text@, fingerprint@, time_nanos) is Some,
            encrypted matches Some(e) ==> e@ == encrypted_text(
                text@,
                fingerprint@,
                time_nanos,
            ).unwrap(),
    {
        let key = Profile::get_machine_key(fingerprint);
        let time = to_le_bytes(time_nanos);
        let nonce_hash = hash_bytes(time.as_slice());
        let nonce = first_bytes(&nonce_hash, NONCE_LEN);
        match seal(&key, &nonce, text.as_bytes()) {
            Some(sealed) => {
                let mut payload = first_bytes(&nonce, NONCE_LEN);
                assert(payload@ =~= nonce@);
                let mut sealed = sealed;
                let ghost sealed_bytes = sealed@;
                payload.append(&mut sealed);
                assert(payload@ =~= nonce@ + sealed_bytes);
                let mut encrypted = Profile::get_prefix(fingerprint);
                encrypted.append(encode_base64(&payload).as_str());
                Some(encrypted)
            },
            None => None,
        }
    }

    /// Encrypts a text; where that cannot be done the text is kept as it is.
    pub fn encrypt(text: &str, fingerprint: &str, time_nanos: u128) -> (stored: String)
        ensures
            stored@ == match encrypted_text(text@, fingerprint@, time_nanos) {
                Some(e) => e,
                None => text@,
            },
    {
        match Profile::try_encrypt(text, fingerprint, time_nanos) {
            Some(e) => e,
            None => text.to_owned(),
        }
    }

    /// Reads a stored key on the device with this fingerprint. A key that does
    /// not bear the device's mark, or that cannot be opened, is returned as it is.
    pub fn decrypt(text: &str, fingerprint: &str) -> (plain: String)
        ensures
            plain@ == decrypted_text(text@, fingerprint@),
    {
        let prefix = Profile::get_prefix(fingerprint);
        let chars = chars_of(text);
        let prefix_chars = chars_of(prefix.as_str());
        if !starts_with(&chars, &prefix_chars) {
            return text.to_owned();
        }
        let encoded = string_of_range(&chars, prefix_chars.len(), chars.len());
        match decode_base64(encoded.as_str()) {
            Ok(data) => {
                if data.len() < NONCE_LEN + TAG_LEN {
                    return text.to_owned();
                }
                let nonce = first_bytes(&data, NONCE_LEN);
                let sealed = bytes_from(&data, NONCE_LEN);
                let key = Profile::get_machine_key(fingerprint);
                match open(&key, &nonce, &sealed) {
                    Some(message) => match text_of_utf8(message) {
                        Some(plain) => plain,
                        None => text.to_owned(),
                    },
                    None => text.to_owned(),
                }
            },
            Err(_) => text.to_owned(),
        }
    }

    /// A copy of the profile.
    pub fn duplicate(&self) -> (copy: Profile)
        ensures
            copy == *self,
    {
        Profile {
            api_key: match &self.api_key {
                Some(k) => Some(k.clone()),
                None => None,
            },
            language: self.language.clone(),
            model: match &self.model {
                Some(k) => Some(k.clone()),
                None => None,
            },
            font: match &self.font {
                Some(k) => Some(k.clone()),
                None => None,
            },
            theme: self.theme.clone(),
            total_credits_used: self.total_credits_used,
            storage_url: self.storage_url.clone(),
            ocr_url: self.ocr_url.clone(),
            translate_url: self.translate_url.clone(),
            storage_urls: self.storage_urls.clone(),
            storage_headers: self.storage_headers.clone(),
            ocr_headers: self.ocr_headers.clone(),
            save_debug_json: self.save_debug_json,
            database_mode: self.database_mode.clone(),
            remote_db_url: self.remote_db_url.clone(),
            remote_db_token: self.remote_db_token.clone(),
            remote_db_user: self.remote_db_user.clone(),
            remote_db_pass: self.remote_db_pass.clone(),
        }
    }

    /// The profile as it is used, from the profile as it was stored: a key
    /// that bears the device's mark is read, everything else is as stored.
    pub fn load(stored: Profile, fingerprint: &str) -> (profile: Profile)
        ensures
            match stored.api_key {
                Some(key) => profile.api_key matches Some(k) && k@ == (if prefix_text(
                    fingerprint@,
                ).is_prefix_of(key@) {
                    decrypted_text(key@, fingerprint@)
                } else {
                    key@
                }),
                None => profile.api_key is None,
            },
            profile == (Profile { api_key: profile.api_key, ..stored }),
    {
        let mut profile = stored;
        let api_key = match &profile.api_key {
            Some(key) => Some(Profile::decrypt(key.as_str(), fingerprint)),
            None => None,
        };
        profile.api_key = api_key;
        profile
    }

    /// The profile as it is stored, at the time `time_nanos`: a key that is not
    /// empty is encrypted, anew where it was encrypted already; everything
    /// else is as it is.
    pub fn save(&self, fingerprint: &str, time_nanos: u128) -> (stored: Profile)
        ensures
            match self.api_key {
                Some(key) => stored.api_key matches Some(k) && k@ == (if key@.len() == 0 {
                    key@
                } else {
                    let plain = decrypted_text(key@, fingerprint@);
                    match encrypted_text(plain, fingerprint@, time_nanos) {
                        Some(e) => e,
                        None => plain,
                    }
                }),
                None => stored.api_key is None,
            },
            stored == (Profile { api_key: stored.api_key, ..*self }),
    {
        let mut stored = self.duplicate();
        let api_key = match &self.api_key {
            Some(key) => {
                if key.as_str().unicode_len() == 0 {
                    Some(key.clone())
                } else {
                    let plain = Profile::decrypt(key.as_str(), fingerprint);
                    Some(Profile::encrypt(plain.as_str(), fingerprint, time_nanos))
                }
            },
            None => None,
        };
        stored.api_key = api_key;
        stored
    }

    /// The service addresses that the profile sets.
    pub fn endpoints(&self) -> (endpoints: ApiEndpoints)
        ensures
            endpoints.storage@ == self.storage_url@,
            endpoints.storage_headers matches Some(h) && h@ == self.storage_headers@,
            endpoints.ocr@ == self.ocr_url@,
            endpoints.ocr_headers matches Some(h) && h@ == self.ocr_headers@,
            endpoints.translate@ == self.translate_url@,
            endpoints.save_debug_json == self.save_debug_json,
    {
        ApiEndpoints {
            storage: self.storage_url.clone(),
            storage_headers: Some(self.storage_headers.clone()),
            ocr: self.ocr_url.clone(),
            ocr_headers: Some(self.ocr_headers.clone()),
            translate: self.translate_url.clone(),
            save_debug_json: self.save_debug_json,
        }
    }

    /// Charges `cost` credits to the profile.
    pub fn add_credits(&mut self, cost: u64)
        requires
            old(self).total_credits_used + cost <= u64::MAX,
        ensures
            final(self).total_credits_used == old(self).total_credits_used + cost,
            final(self).api_key == old(self).api_key,
            final(self).language == old(self).language,
            final(self).model == old(self).model,
            final(self).font == old(self).font,
            final(self).theme == old(self).theme,
            final(self).storage_url == old(self).storage_url,
            final(self).ocr_url == old(self).ocr_url,
            final(self).translate_url == old(self).translate_url,
            final(self).storage_urls == old(self).storage_urls,
            final(self).storage_headers == old(self).storage_headers,
            final(self).ocr_headers == old(self).ocr_headers,
            final(self).save_debug_json == old(self).save_debug_json,
            final(self).database_mode == old(self).database_mode,
            final(self).remote_db_url == old(self).remote_db_url,
            final(self).remote_db_token == old(self).remote_db_token,
            final(self).remote_db_user == old(self).remote_db_user,
            final(self).remote_db_pass == old(self).remote_db_pass,
    {
        self.total_credits_used = self.total_credits_used + cost;
    }
}

} // verus!
