use tapi::profile::{default_ocr_url, default_storage_url, default_translate_url, Profile};

#[test]
fn default_profile() {
    let p = Profile::default();
    assert_eq!(p.api_key, None);
    assert_eq!(p.language, "en");
    assert_eq!(p.model, None);
    assert_eq!(p.font.as_deref(), Some("wildwords"));
    assert_eq!(p.theme, "dark");
    assert_eq!(p.total_credits_used, 0);
    assert_eq!(p.storage_url, default_storage_url());
    assert_eq!(p.ocr_url, default_ocr_url());
    assert_eq!(p.translate_url, default_translate_url());
    assert_eq!(p.translate_url, "https://api.toriitranslate.com/api/upload");
    assert!(p.storage_urls.is_empty() && p.storage_headers.is_empty() && p.ocr_headers.is_empty());
    assert!(!p.save_debug_json);
    assert!(p.remote_db_url.is_empty());
}

#[test]
fn endpoints_come_from_the_profile() {
    let mut p = Profile::default();
    p.translate_url = "http://localhost:9/upload".into();
    p.storage_headers = "{\"x\":\"1\"}".into();
    p.save_debug_json = true;
    let e = p.endpoints();
    assert_eq!(e.translate, "http://localhost:9/upload");
    assert_eq!(e.storage, "https://api.toriitranslate.com/api/storage");
    assert_eq!(e.storage_headers.as_deref(), Some("{\"x\":\"1\"}"));
    assert_eq!(e.ocr_headers.as_deref(), Some(""));
    assert!(e.save_debug_json);
}

#[test]
fn credits_add_up() {
    let mut p = Profile::default();
    p.add_credits(1);
    p.add_credits(2);
    assert_eq!(p.total_credits_used, 3);
    assert_eq!(p.language, "en");
}
