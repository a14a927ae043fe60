use tapi::server::{
    asset_path, bind_address, log_frame, progress_frame, static_handler, StaticAnswer,
    DEFAULT_HOST, DEFAULT_PORT,
};

fn asset(answer: StaticAnswer) -> Option<(String, String)> {
    match answer {
        StaticAnswer::Asset { name, mime } => Some((name, mime)),
        StaticAnswer::NotFound => None,
    }
}

#[test]
fn the_file_of_a_request() {
    assert_eq!(asset_path("/"), "index.html");
    assert_eq!(asset_path(""), "index.html");
    assert_eq!(asset_path("///"), "index.html");
    assert_eq!(asset_path("/app/main.js"), "app/main.js");
    assert_eq!(asset_path("//x/"), "x/");
}

#[test]
fn answers() {
    assert_eq!(
        asset(static_handler("/app/main.js", true, true)),
        Some(("app/main.js".to_string(), "text/javascript".to_string()))
    );
    assert_eq!(
        asset(static_handler("/", true, true)),
        Some(("index.html".to_string(), "text/html".to_string()))
    );
    assert_eq!(asset(static_handler("/missing.css", false, true)), None);
    assert_eq!(
        asset(static_handler("/settings/profile", false, true)),
        Some(("index.html".to_string(), "text/html".to_string()))
    );
    assert_eq!(asset(static_handler("/settings", false, false)), None);
    assert_eq!(
        asset(static_handler("/blob", true, false)),
        Some(("blob".to_string(), "application/octet-stream".to_string()))
    );
}

#[test]
fn addresses_and_frames() {
    assert_eq!(bind_address(DEFAULT_HOST, DEFAULT_PORT), "0.0.0.0:3000");
    assert_eq!(bind_address("localhost", 65535), "localhost:65535");
    assert_eq!(log_frame("hello"), "LOG:hello");
    assert_eq!(progress_frame(2, 10, "Processing 2/10"), "PROG:2:10:Processing 2/10");
}
