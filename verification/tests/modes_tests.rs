use tapi::modes::{
    archive_kind, archive_output_dir, archive_output_name, archive_selected, cli_output_dir,
    extract_dir, mode_of, options_with_defaults, require_api_key, text_or, translated_dir,
    ArchiveKind, ArchiveOutcome, ArchiveTally, Mode,
};
use tapi::processor::{compressed_path, history_path, temp_path};

#[test]
fn the_mode_is_cli_unless_archive_is_named() {
    assert_eq!(mode_of(None), Mode::Cli);
    assert_eq!(mode_of(Some("cli")), Mode::Cli);
    assert_eq!(mode_of(Some("archive")), Mode::Archive);
    assert_eq!(mode_of(Some("Archive")), Mode::Cli);
}

#[test]
fn options_get_their_defaults() {
    let o = options_with_defaults(
        "gemini-2.5-flash".into(),
        "key".into(),
        None,
        None,
        None,
        None,
        None,
        None,
        None,
        None,
    );
    assert_eq!((o.target_lang.as_str(), o.font.as_str(), o.text_align.as_str()), ("en", "wildwords", "auto"));
    assert_eq!((o.stroke_disabled, o.inpaint_only, o.min_font_size), (false, false, 12));
    assert!(o.endpoints.is_none() && o.included_paths.is_none());
    let o = options_with_defaults(
        "m".into(),
        " k ".into(),
        Some("tr".into()),
        Some("f".into()),
        Some("left".into()),
        Some(true),
        Some(true),
        Some(20),
        None,
        Some(vec!["/in/a".to_string()]),
    );
    assert_eq!((o.target_lang.as_str(), o.font.as_str(), o.text_align.as_str()), ("tr", "f", "left"));
    assert_eq!((o.stroke_disabled, o.inpaint_only, o.min_font_size), (true, true, 20));
    assert_eq!(o.client().authorization(), "Bearer k");
    let headers = o.request_headers(&o.client());
    assert_eq!(headers[1].value, "tr");
    assert_eq!(headers[7].value, "20");
    let picked = o.select(vec!["/in/a/1.png".to_string(), "/in/b/1.png".to_string()]);
    assert_eq!(picked, vec!["/in/a/1.png"]);
    assert_eq!(text_or(None, "x"), "x");
}

#[test]
fn a_run_needs_a_key() {
    assert_eq!(require_api_key(Some("k".into())), Ok("k".to_string()));
    assert_eq!(require_api_key(None), Err("API Key not found in settings".to_string()));
}

#[test]
fn output_folders() {
    assert_eq!(cli_output_dir("/in", None), "/in/translated");
    assert_eq!(cli_output_dir("/in", Some("/out".into())), "/out");
    assert_eq!(archive_output_dir("/in", None), "/in/archive_outputs");
    assert_eq!(archive_output_dir("/in", Some("/o".into())), "/o");
    assert_eq!(extract_dir("/in"), "/in/temp_extract");
    assert_eq!(translated_dir("/in"), "/in/temp_translated");
    assert_eq!(history_path("/in"), "/in/.f_history");
    assert_eq!(temp_path("/in/.f_history"), "/in/.f_history.tmp");
    assert_eq!(temp_path("profile.json"), "profile.tmp");
    assert_eq!(compressed_path("/in/a/big.png"), "/in/a/big.tmp.jpg");
}

#[test]
fn archives_by_extension() {
    assert_eq!(archive_kind("a.zip"), Some(ArchiveKind::Zip));
    assert_eq!(archive_kind("a.CBZ"), Some(ArchiveKind::Zip));
    assert_eq!(archive_kind("a.Pdf"), Some(ArchiveKind::Pdf));
    assert_eq!(archive_kind("a.rar"), None);
    assert_eq!(archive_kind("zip"), None);
    assert_eq!(archive_output_name("vol1.pdf", ArchiveKind::Pdf), "vol1.pdf.cbz");
    assert_eq!(archive_output_name("vol1.cbz", ArchiveKind::Zip), "vol1.cbz");
    assert!(archive_selected("/in/a.zip", &None));
    assert!(archive_selected("/in/a.zip", &Some(vec!["/in".to_string()])));
    assert!(!archive_selected("/in/a.zip", &Some(vec!["/other".to_string()])));
}

#[test]
fn the_tally_decides_how_an_archive_run_ends() {
    let tally = ArchiveTally::new();
    assert_eq!(
        tally.finish(),
        Err("No valid archives (zip, cbz, pdf) found in the selected folder.".to_string())
    );
    let mut tally = ArchiveTally::new();
    tally.record(ArchiveOutcome::ExtractFailed);
    tally.record(ArchiveOutcome::TranslateFailed);
    tally.record(ArchiveOutcome::RepackFailed);
    assert_eq!(
        tally.finish(),
        Err("Failed to translate any archives in the folder. Check logs for details.".to_string())
    );
    tally.record(ArchiveOutcome::Repacked);
    assert_eq!((tally.found, tally.succeeded), (4, 1));
    assert_eq!(
        tally.finish(),
        Ok("Task completed! Processed 1/4 archives successfully.".to_string())
    );
}
