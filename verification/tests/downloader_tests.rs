use tapi::downloader::{
    artwork_api_url, artwork_folder, artwork_id, download_generic, drop_repeats, file_name_of_url,
    gallery_api_url, gallery_folder, gallery_id, generic_file_name, generic_folder,
    links_to_images, names_image, page_extension, page_file_name, page_url, save_base64_image,
    saved_fallback_message, site_of, take_first_group, user_agent_or_default,
    wrapper_download_url, Site, DEFAULT_USER_AGENT,
};

#[test]
fn sites_by_url() {
    assert_eq!(site_of("https://nhentai.net/g/123/"), Site::NHentai);
    assert_eq!(site_of("https://www.pixiv.net/artworks/9"), Site::Pixiv);
    assert_eq!(site_of("https://example.org/gallery"), Site::Generic);
    assert_eq!(user_agent_or_default(None), DEFAULT_USER_AGENT);
    assert_eq!(user_agent_or_default(Some("ua".into())), "ua");
}

#[test]
fn a_block_asks_for_the_fallback() {
    assert_eq!(wrapper_download_url(Ok("done".into())), Ok("done".to_string()));
    for e in ["status 403", "HTTP 503 busy", "Cloudflare blocked?", "Deleted or Login Required"] {
        assert_eq!(wrapper_download_url(Err(e.into())), Ok("FALLBACK_REQUIRED".to_string()));
    }
    assert_eq!(wrapper_download_url(Err("timeout".into())), Err("timeout".to_string()));
}

#[test]
fn data_urls_are_decoded() {
    assert_eq!(save_base64_image("data:image/png;base64,aGVsbG8="), Ok(b"hello".to_vec()));
    assert_eq!(save_base64_image("aGVsbG8="), Ok(b"hello".to_vec()));
    assert_eq!(save_base64_image("a,b,aGk="), Err("Base64 decode failed: Invalid symbol 44, offset 1.".to_string()));
    let error = save_base64_image("data:,not base64!").unwrap_err();
    assert!(error.starts_with("Base64 decode failed: "), "{error}");
    assert_eq!(saved_fallback_message("/t/a.png"), "Saved fallback image to /t/a.png");
}

#[test]
fn direct_picture_urls() {
    assert!(names_image("https://h/a.jpg") && names_image("x.webp") && names_image("a.jpeg"));
    assert!(!names_image("https://h/a.JPG") && !names_image("https://h/a.png?x=1"));
    assert_eq!(file_name_of_url("https://h/dir/a.png"), "a.png");
    assert_eq!(file_name_of_url("a.png"), "a.png");
    assert_eq!(file_name_of_url("https://h/dir/"), "");
    assert_eq!(generic_file_name("https://h/dir/a.png?size=2"), "a.png");
    assert_eq!(generic_file_name("not a url"), "image.png");
}

#[test]
fn the_links_of_a_page() {
    let html = r#"<a href="b.png">x</a><img src='/img/a.jpg'><img src="b.png"><a href="c.gif">
        <img src="https://cdn.example/z.webp"><a href="page.html">"#;
    let images = download_generic("https://example.org/gallery/index.html", html).unwrap();
    assert_eq!(
        images,
        vec![
            "https://cdn.example/z.webp",
            "https://example.org/gallery/b.png",
            "https://example.org/img/a.jpg"
        ]
    );
    assert_eq!(
        download_generic("https://example.org/", "<p>nothing</p>"),
        Err("No images found on this page via generic scraper.".to_string())
    );
    assert_eq!(
        links_to_images("not a base", &vec![Some("a.png".to_string()), None]),
        Vec::<String>::new()
    );
    assert_eq!(
        drop_repeats(vec!["a".into(), "a".into(), "b".into(), "a".into(), "a".into()]),
        vec!["a", "b", "a"]
    );
}

#[test]
fn folders_are_made_fit_for_file_names() {
    assert_eq!(generic_folder(Some("example.org")), "example.org");
    assert_eq!(generic_folder(None), "generic_download");
    for title in ["A/B: C?", "plain", "what*is|this"] {
        assert_eq!(gallery_folder(title), sanitize_filename::sanitize(title));
    }
    assert_ne!(gallery_folder("A/B"), "A/B");
}

#[test]
fn nhentai_addresses() {
    assert_eq!(gallery_id("https://nhentai.net/g/622461/"), Ok("622461".to_string()));
    assert_eq!(gallery_id("https://nhentai.net/search"), Err("Invalid nHentai URL".to_string()));
    assert_eq!(gallery_api_url("622461"), "https://nhentai.net/api/gallery/622461");
    assert_eq!((page_extension("j"), page_extension("p"), page_extension("w"), page_extension("?")), ("jpg", "png", "webp", "jpg"));
    assert_eq!(page_url("3733533", 1, "jpg"), "https://i.nhentai.net/galleries/3733533/1.jpg");
    assert_eq!(page_file_name(1, "jpg"), "001.jpg");
    assert_eq!(page_file_name(42, "png"), "042.png");
    assert_eq!(page_file_name(1234, "webp"), "1234.webp");
    assert_eq!(take_first_group(Some(vec![None, Some("x".into())])), None);
    assert_eq!(take_first_group(Some(Vec::new())), None);
    assert_eq!(take_first_group(None), None);
}

#[test]
fn pixiv_addresses() {
    assert_eq!(artwork_id("https://www.pixiv.net/en/artworks/12345"), Ok("12345".to_string()));
    assert_eq!(artwork_id("https://www.pixiv.net/users/1"), Err("Invalid Pixiv URL".to_string()));
    assert_eq!(artwork_api_url("12345"), "https://www.pixiv.net/ajax/illust/12345/pages");
    assert_eq!(artwork_folder("12345"), "pixiv_12345");
}
