use tapi::history::{load_history, save_history, HistoryRecord};
use tapi::processor::{
    compressing_message, display_name, existing_message, get_model_cost, known_message,
    needs_compression, output_path, plan_send, progress_message, queue_message, relative_path,
    require_candidates, retain_included, save_failed_message, scan_message, select_unseen,
    split_existing, transform_failed_message, waiting_message, HashedFile, ItemOutcome, RunError,
    ScannedFile, TransformStage, WorkItem,
};

fn strings(items: &[&str]) -> Vec<String> {
    items.iter().map(|s| s.to_string()).collect()
}

#[test]
fn model_cost_is_one_credit() {
    assert_eq!(get_model_cost("gemini-2.5-flash"), 1);
    assert_eq!(get_model_cost("anything-else"), 1);
}

#[test]
fn included_paths_keep_files_at_or_below_them() {
    let images = strings(&["/in/a/1.png", "/in/b/2.png", "/in/a/sub/3.jpg", "/in/c.webp"]);
    let kept = retain_included(images, &strings(&["/in/a", "/in/c.webp"]));
    assert_eq!(kept, strings(&["/in/a/1.png", "/in/a/sub/3.jpg", "/in/c.webp"]));
}

#[test]
fn empty_include_list_keeps_nothing() {
    let kept = retain_included(strings(&["/in/a.png"]), &Vec::new());
    assert!(kept.is_empty());
}

#[test]
fn relative_path_falls_back_to_name_then_unknown() {
    assert_eq!(relative_path(Some("a/b.png".to_string()), None), "a/b.png");
    assert_eq!(relative_path(None, Some("b.png".to_string())), "b.png");
    assert_eq!(relative_path(None, None), "unknown");
}

#[test]
fn output_path_mirrors_the_relative_path() {
    assert_eq!(output_path("/in", "/out", "/in/ch1/p1.png"), "/out/ch1/p1.png");
    assert_eq!(output_path("/in", "/out", "/elsewhere/p1.png"), "/out/p1.png");
}

#[test]
fn history_round_trip_through_json() {
    let mut history = HistoryRecord::new();
    assert!(history.insert("aa".to_string()));
    assert!(history.insert("bb".to_string()));
    assert!(!history.insert("aa".to_string()));
    assert_eq!(history.len(), 2);
    let text = save_history(&history);
    assert_eq!(text, "[\"aa\",\"bb\"]");
    let back = load_history(Some(&text));
    assert!(back.contains("aa") && back.contains("bb"));
    assert_eq!(back.len(), 2);
}

#[test]
fn unreadable_or_malformed_history_is_empty() {
    assert!(load_history(None).is_empty());
    assert!(load_history(Some("not json")).is_empty());
    assert!(load_history(Some("{\"a\":1}")).is_empty());
    let duplicated = load_history(Some("[\"x\",\"x\",\"y\"]"));
    assert_eq!(duplicated.len(), 2);
}

#[test]
fn large_files_need_compression() {
    assert!(!needs_compression(15 * 1024 * 1024));
    assert!(needs_compression(15 * 1024 * 1024 + 1));
    assert!(!needs_compression(0));
}

fn scanned(n: usize, existing: usize) -> Vec<ScannedFile> {
    (0..n)
        .map(|i| ScannedFile {
            path: format!("/in/{i:02}.png"),
            out_path: format!("/out/{i:02}.png"),
            output_exists: i < existing,
        })
        .collect()
}

#[test]
fn fifty_files_ten_existing_five_known_one_failing() {
    let pre = split_existing(scanned(50, 10));
    assert_eq!(pre.skipped, 10);
    assert_eq!(pre.pending.len(), 40);

    let mut history = HistoryRecord::new();
    for i in 10..15 {
        history.insert(format!("digest-{i:02}"));
    }
    let hashed: Vec<HashedFile> = pre
        .pending
        .into_iter()
        .enumerate()
        .map(|(k, f)| HashedFile {
            path: f.path,
            out_path: f.out_path,
            hash: Some(format!("digest-{:02}", k + 10)),
        })
        .collect();
    let selection = select_unseen(hashed, &history, &Vec::new());
    assert_eq!(selection.skipped, 5);
    assert_eq!(selection.dropped, 0);
    assert_eq!(pre.skipped + selection.skipped, 15);
    assert_eq!(selection.queue.len(), 35);

    let mut stage = TransformStage::new(history);
    let mut produced = 0;
    let mut failures = 0;
    let mut flushes = 0;
    for (k, item) in selection.queue.iter().enumerate() {
        let outcome = if k == 7 { ItemOutcome::TransformFailed } else { ItemOutcome::Saved };
        let failed = matches!(outcome, ItemOutcome::TransformFailed);
        let next = stage.record(item, outcome, "gemini-2.5-flash");
        assert_eq!(next.delay_secs, 3);
        if failed {
            failures += 1;
            assert!(next.cache_entry.is_none());
            assert_eq!(next.credits, 0);
        } else {
            produced += 1;
            assert_eq!(next.credits, 1);
            assert_eq!(next.cache_entry.expect("saved files are cached").folder, "in");
        }
        if next.flush_history {
            flushes += 1;
        }
    }
    let (history, flush) = stage.finish();
    assert_eq!(produced, 34);
    assert_eq!(failures, 1);
    assert_eq!(flushes, 3);
    assert!(flush);
    assert_eq!(history.len(), 5 + 34);
}

#[test]
fn a_file_that_cannot_be_hashed_is_dropped_from_the_run() {
    let hashed = vec![
        HashedFile { path: "/in/a.png".into(), out_path: "/out/a.png".into(), hash: None },
        HashedFile {
            path: "/in/b.png".into(),
            out_path: "/out/b.png".into(),
            hash: Some("bb".into()),
        },
        HashedFile {
            path: "/in/c.png".into(),
            out_path: "/out/c.png".into(),
            hash: Some("cc".into()),
        },
    ];
    let selection = select_unseen(hashed, &HistoryRecord::new(), &strings(&["cc"]));
    assert_eq!(selection.dropped, 1);
    assert_eq!(selection.skipped, 1);
    assert_eq!(selection.queue.len(), 1);
    assert_eq!(selection.queue[0].path, "/in/b.png");
    assert_eq!(selection.queue[0].hash, "bb");
}

#[test]
fn history_is_flushed_with_every_tenth_saved_file() {
    let mut stage = TransformStage::new(HistoryRecord::new());
    for k in 0..25 {
        let item = WorkItem {
            path: format!("/in/{k}.png"),
            out_path: format!("/out/{k}.png"),
            hash: format!("h{k}"),
        };
        let next = stage.record(&item, ItemOutcome::Saved, "m");
        assert_eq!(next.flush_history, (k + 1) % 10 == 0);
    }
    let (history, flush) = stage.finish();
    assert!(flush);
    assert_eq!(history.len(), 25);
}

#[test]
fn a_failed_save_records_nothing() {
    let mut stage = TransformStage::new(HistoryRecord::new());
    let item = WorkItem { path: "/in/a.png".into(), out_path: "/out/a.png".into(), hash: "h".into() };
    let next = stage.record(&item, ItemOutcome::SaveFailed, "m");
    assert!(!next.flush_history && next.cache_entry.is_none() && next.credits == 0);
    let (history, flush) = stage.finish();
    assert!(!flush);
    assert!(history.is_empty());
}

#[test]
fn fifty_files_with_one_that_cannot_be_hashed_leave_thirty_four_to_send() {
    let pre = split_existing(scanned(50, 10));
    let mut history = HistoryRecord::new();
    for i in 10..15 {
        history.insert(format!("digest-{i:02}"));
    }
    let hashed: Vec<HashedFile> = pre
        .pending
        .into_iter()
        .enumerate()
        .map(|(k, f)| HashedFile {
            path: f.path,
            out_path: f.out_path,
            hash: if k == 39 { None } else { Some(format!("digest-{:02}", k + 10)) },
        })
        .collect();
    let selection = select_unseen(hashed, &history, &Vec::new());
    assert_eq!(pre.skipped + selection.skipped, 15);
    assert_eq!(selection.dropped, 1);
    assert_eq!(selection.queue.len(), 34);

    let mut stage = TransformStage::new(history);
    let mut produced = 0;
    let mut failures = 0;
    for (k, item) in selection.queue.iter().enumerate() {
        let outcome = if k == 0 { ItemOutcome::TransformFailed } else { ItemOutcome::Saved };
        if stage.record(item, outcome, "m").cache_entry.is_some() {
            produced += 1;
        } else {
            failures += 1;
        }
    }
    assert_eq!((produced, failures), (33, 1));
}

#[test]
fn a_second_run_over_an_unchanged_directory_queues_nothing() {
    let hashes = |files: Vec<ScannedFile>| -> Vec<HashedFile> {
        files
            .into_iter()
            .map(|f| {
                let hash = if f.path.ends_with("7.png") {
                    None
                } else {
                    Some(format!("digest-of-{}", &f.path[f.path.len() - 5..]))
                };
                HashedFile { path: f.path, out_path: f.out_path, hash }
            })
            .collect()
    };
    let cached = strings(&["digest-of-3.png"]);

    let first = split_existing(scanned(12, 2));
    let selection = select_unseen(hashes(first.pending), &HistoryRecord::new(), &cached);
    assert!(!selection.queue.is_empty());
    let written: Vec<String> = selection.queue.iter().map(|i| i.out_path.clone()).collect();
    let mut stage = TransformStage::new(HistoryRecord::new());
    for item in &selection.queue {
        stage.record(item, ItemOutcome::Saved, "m");
    }
    let (history, _) = stage.finish();
    let entries = history.len();

    let again: Vec<ScannedFile> = scanned(12, 2)
        .into_iter()
        .map(|mut f| {
            f.output_exists = f.output_exists || written.contains(&f.out_path);
            f
        })
        .collect();
    let second = split_existing(again);
    let selection = select_unseen(hashes(second.pending), &history, &cached);
    assert!(selection.queue.is_empty());
    let mut stage = TransformStage::new(history);
    for item in &selection.queue {
        stage.record(item, ItemOutcome::Saved, "m");
    }
    let (history, flush) = stage.finish();
    assert!(!flush);
    assert_eq!(history.len(), entries);
}

#[test]
fn a_crash_loses_fewer_than_ten_entries() {
    for crash_after in 0..35usize {
        let mut stage = TransformStage::new(HistoryRecord::new());
        let mut on_disk: Vec<String> = Vec::new();
        for k in 0..crash_after {
            let item = WorkItem {
                path: format!("/in/{k}.png"),
                out_path: format!("/out/{k}.png"),
                hash: format!("h{k}"),
            };
            if stage.record(&item, ItemOutcome::Saved, "m").flush_history {
                on_disk = stage.history().to_list();
            }
        }
        let in_memory = stage.history().to_list();
        let missing: Vec<&String> = in_memory.iter().filter(|h| !on_disk.contains(h)).collect();
        assert_eq!(missing.len(), crash_after % 10);
        assert!(on_disk.iter().all(|h| in_memory.contains(h)));
        for k in 0..crash_after - crash_after % 10 {
            assert!(on_disk.contains(&format!("h{k}")));
        }
    }
}

#[test]
fn messages_of_a_run() {
    assert_eq!(scan_message(50), "Dosyalar taranıyor (50)...");
    assert_eq!(existing_message(10).as_deref(), Some("... 10 dosya zaten var, atlandı."));
    assert_eq!(existing_message(0), None);
    assert_eq!(known_message(5).as_deref(), Some("... 5 dosya tarihçeye göre atlandı."));
    assert_eq!(known_message(0), None);
    assert_eq!(queue_message(0), "Tüm dosyalar zaten işlenmiş.");
    assert_eq!(queue_message(34), "İşlenecek dosya sayısı: 34");
    assert_eq!(progress_message(1, 34, "a.png"), "Processing 1/34 - a.png");
    assert_eq!(compressing_message("big.png"), "Compressing large file: big.png");
    assert_eq!(save_failed_message("disk full"), "Kaydetme Hatası: disk full");
    assert_eq!(transform_failed_message("a.png", "API Error (500): x"), "Failed to translate a.png: API Error (500): x");
    assert_eq!(waiting_message(), "Waiting 3 seconds...");
    assert_eq!(display_name("/in/ch1/a.png"), "a.png");
    assert_eq!(display_name("/"), "");
    assert!(require_candidates(&vec!["a".to_string()]).is_ok());
    let error = require_candidates(&Vec::new()).unwrap_err();
    assert!(matches!(error, RunError::NoEligibleFiles));
    assert_eq!(error.message(), "No images found in directory (or none selected).");
    assert_eq!(
        RunError::OutputDirectory { reason: "denied".into() }.message(),
        "Could not create the output directory: denied"
    );
}

#[test]
fn cache_entries_name_the_file_and_its_folder() {
    let mut stage = TransformStage::new(HistoryRecord::new());
    let item = WorkItem { path: "/in/ch1/a.png".into(), out_path: "/out/ch1/a.png".into(), hash: "h".into() };
    let entry = stage.record(&item, ItemOutcome::Saved, "m").cache_entry.unwrap();
    assert_eq!((entry.hash.as_str(), entry.name.as_str(), entry.folder.as_str()), ("h", "a.png", "ch1"));
    let item = WorkItem { path: "a.png".into(), out_path: "o".into(), hash: "g".into() };
    let entry = stage.record(&item, ItemOutcome::Saved, "m").cache_entry.unwrap();
    assert_eq!((entry.name.as_str(), entry.folder.as_str()), ("a.png", "Root"));
    let item = WorkItem { path: "b.png".into(), out_path: "o".into(), hash: "".into() };
    assert!(stage.record(&item, ItemOutcome::Saved, "m").cache_entry.is_none());
    let (history, _) = stage.finish();
    assert_eq!(history.len(), 2);
}

#[test]
fn the_compressed_copy_is_sent_for_a_large_file() {
    let large = Some(15 * 1024 * 1024 + 1);
    let plan = plan_send("/in/a/big.png", large, true);
    assert_eq!(plan.path, "/in/a/big.tmp.jpg");
    assert_eq!(plan.temp.as_deref(), Some("/in/a/big.tmp.jpg"));
    for (size, compressed) in [(large, false), (Some(10), true), (Some(15 * 1024 * 1024), true), (None, true)] {
        let plan = plan_send("/in/a/big.png", size, compressed);
        assert_eq!(plan.path, "/in/a/big.png");
        assert_eq!(plan.temp, None);
    }
}
