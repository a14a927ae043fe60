use tapi::mangadex::{
    chapter_done_message, download_path, extract_uuid_from_url, page_address,
    page_failed_message, plan_chapter, safe_folder_name, server_url, ChapterData, ServerResponse,
};

const ID: &str = "a1b2c3d4-e5f6-7890-abcd-ef1234567890";

#[test]
fn the_chapter_of_a_url() {
    assert_eq!(extract_uuid_from_url(&format!("https://mangadex.org/chapter/{ID}")), Some(ID.to_string()));
    assert_eq!(extract_uuid_from_url(&format!("https://mangadex.org/chapter/{ID}/1")), Some(ID.to_string()));
    assert_eq!(extract_uuid_from_url("https://mangadex.org/chapter/short"), None);
    assert_eq!(extract_uuid_from_url("https://mangadex.org/title/x"), None);
    assert_eq!(extract_uuid_from_url("chapter/"), None);
    let long = format!("chapter/{ID}extra");
    assert_eq!(extract_uuid_from_url(&long), Some(format!("{ID}extra")));
    let twelve = "ééééééééééééééééé!";
    assert_eq!(twelve.len(), 35);
    assert_eq!(extract_uuid_from_url(&format!("chapter/{twelve}")), None);
    let eighteen = "éééééééééééééééééé";
    assert_eq!(extract_uuid_from_url(&format!("chapter/{eighteen}/x")), Some(eighteen.to_string()));
}

#[test]
fn folder_names_are_made_safe() {
    assert_eq!(safe_folder_name("Vol. 1: The Start!"), "Vol_ 1_ The Start_");
    assert_eq!(safe_folder_name("Ünïcödé_日本-ok 2"), "Ünïcödé_日本-ok 2");
    assert_eq!(safe_folder_name("a/b\\c"), "a_b_c");
    for name in ["Vol. 1", "x/y", "ok_name-1", "日本語!?"] {
        let want = name.replace(|c: char| !c.is_alphanumeric() && c != '_' && c != '-' && c != ' ', "_");
        assert_eq!(safe_folder_name(name), want);
    }
}

#[test]
fn where_a_chapter_goes() {
    assert_eq!(download_path("/t", Some("My Series!"), "Ch. 1"), "/t/My Series_/Ch_ 1");
    assert_eq!(download_path("/t", Some("   "), "Ch 1"), "/t/Ch 1");
    assert_eq!(download_path("/t", None, "Ch 1"), "/t/Ch 1");
    assert_eq!(server_url(ID), format!("https://api.mangadex.org/at-home/server/{ID}?forcePort443=false"));
}

fn response(result: Option<&str>, base: Option<&str>, chapter: bool) -> ServerResponse {
    ServerResponse {
        result: result.map(|s| s.to_string()),
        base_url: base.map(|s| s.to_string()),
        chapter: if chapter {
            Some(ChapterData {
                hash: "hh".into(),
                data: vec!["1.png".into(), "2.png".into()],
                data_saver: vec!["1.jpg".into()],
            })
        } else {
            None
        },
    }
}

#[test]
fn the_answer_of_the_service() {
    let plan = plan_chapter(response(Some("ok"), Some("https://s.example"), true), false).ok().unwrap();
    assert_eq!(plan.base, "https://s.example/data/hh");
    assert_eq!(plan.pages, vec!["1.png", "2.png"]);
    assert_eq!(page_address(&plan.base, &plan.pages[0]), "https://s.example/data/hh/1.png");
    let plan = plan_chapter(response(Some("ok"), Some("https://s.example"), true), true).ok().unwrap();
    assert_eq!(plan.base, "https://s.example/data-saver/hh");
    assert_eq!(plan.pages, vec!["1.jpg"]);
    let fault = |r: ServerResponse| plan_chapter(r, false).err().unwrap();
    assert_eq!(fault(response(Some("error"), Some("b"), true)), "MangaDex API returned an error or invalid response");
    assert_eq!(fault(response(None, None, false)), "MangaDex API returned an error or invalid response");
    assert_eq!(fault(response(Some("ok"), None, true)), "Missing baseUrl");
    assert_eq!(fault(response(Some("ok"), Some("b"), false)), "Missing chapter data");
}

#[test]
fn messages() {
    assert_eq!(page_failed_message("1.png", "Download failed with status: 404"), "Failed to download 1.png: Download failed with status: 404");
    assert_eq!(chapter_done_message(12, "/t/ch"), "Successfully downloaded 12 images to /t/ch");
}
