use tapi::profile::{get_device_fingerprint, to_le_bytes, Profile};

#[test]
fn the_fingerprint_of_a_device() {
    assert_eq!(get_device_fingerprint(Some("m".into()), Some("h".into())), "m");
    assert_eq!(get_device_fingerprint(None, Some("h".into())), "h");
    assert_eq!(get_device_fingerprint(None, None), "generic-device");
}

#[test]
fn the_mark_of_a_device() {
    let prefix = Profile::get_prefix("machine-1");
    let hash = blake3::hash(b"prefix-tag|machine-1");
    assert_eq!(prefix, format!("{}::", hex::encode(&hash.as_bytes()[0..8]).to_uppercase()));
    assert_eq!(prefix.len(), 18);
    assert_ne!(prefix, Profile::get_prefix("machine-2"));
}

#[test]
fn numbers_as_bytes() {
    for n in [0u128, 1, 255, 256, 1_700_000_000_123_456_789, u128::MAX] {
        assert_eq!(to_le_bytes(n), n.to_le_bytes().to_vec());
    }
}

#[test]
fn the_key_of_a_device() {
    let key = Profile::get_machine_key("machine-1");
    assert_eq!(key.len(), 32);
    assert_eq!(key, Profile::get_machine_key("machine-1"));
    assert_ne!(key, Profile::get_machine_key("machine-2"));
    assert_ne!(key, blake3::hash(b"machine-1").as_bytes().to_vec());
}

#[test]
fn what_is_encrypted_can_be_read_on_the_same_device() {
    let secret = "sk-üñí-123";
    let stored = Profile::try_encrypt(secret, "machine-1", 1_700_000_000_000_000_000).unwrap();
    assert!(stored.starts_with(&Profile::get_prefix("machine-1")));
    assert_ne!(stored, secret);
    assert_eq!(Profile::decrypt(&stored, "machine-1"), secret);
    assert_eq!(Profile::decrypt(&stored, "machine-2"), stored);
    let again = Profile::encrypt(secret, "machine-1", 1_700_000_000_000_000_001);
    assert_ne!(again, stored);
    assert_eq!(Profile::decrypt(&again, "machine-1"), secret);
}

#[test]
fn what_cannot_be_read_is_kept() {
    let prefix = Profile::get_prefix("m");
    assert_eq!(Profile::decrypt("plain-key", "m"), "plain-key");
    for tail in ["", "!!!", "aGVsbG8=", "AAAAAAAAAAAAAAAAAAAAAAAAAAAAAAAAAAAAAAAAAAAAAAAAAAAAAAAAAAAAAAAA"] {
        let text = format!("{prefix}{tail}");
        assert_eq!(Profile::decrypt(&text, "m"), text);
    }
}

#[test]
fn load_and_save() {
    let mut profile = Profile::default();
    profile.api_key = Some("my-key".into());
    profile.theme = "light".into();
    let stored = profile.save("m", 42);
    let key = stored.api_key.clone().unwrap();
    assert!(key.starts_with(&Profile::get_prefix("m")));
    assert_eq!(stored.theme, "light");
    let stored_again = stored.save("m", 43);
    assert_ne!(stored_again.api_key, stored.api_key);
    let loaded = Profile::load(stored_again, "m");
    assert_eq!(loaded.api_key.as_deref(), Some("my-key"));
    assert_eq!(loaded.theme, "light");

    let mut empty = Profile::default();
    empty.api_key = Some(String::new());
    assert_eq!(empty.save("m", 1).api_key.as_deref(), Some(""));
    assert_eq!(Profile::default().save("m", 1).api_key, None);
    let mut plain = Profile::default();
    plain.api_key = Some("unmarked".into());
    assert_eq!(Profile::load(plain, "m").api_key.as_deref(), Some("unmarked"));
    assert_eq!(profile.duplicate().api_key, profile.api_key);
}
