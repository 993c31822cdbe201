use imagedl::document::{count_images, Document, SubProperty};
use imagedl::progress::ProgressState;
use imagedl::session::{download_outcome, summary_line, Session};

#[test]
fn outcome_success_status_gives_file_name() {
    let r = download_outcome(200, "http://x/photo.png", 1);
    assert_eq!(r.unwrap(), "1.png");
    let r = download_outcome(299, "http://x/photo.png", 4);
    assert_eq!(r.unwrap(), "4.png");
}

#[test]
fn outcome_error_status_gives_no_file_name() {
    let r = download_outcome(404, "http://x/photo.png", 1);
    assert_eq!(r.unwrap_err().status, 404);
    let r = download_outcome(199, "http://x/photo.png", 1);
    assert_eq!(r.unwrap_err().status, 199);
    let r = download_outcome(300, "http://x/photo.png", 1);
    assert_eq!(r.unwrap_err().status, 300);
    let r = download_outcome(500, "http://x/photo.png", 1);
    assert_eq!(r.unwrap_err().status, 500);
}

#[test]
fn failed_attempt_spends_no_index_and_no_success() {
    let mut doc = Document::new();
    doc.push_entry(
        String::from("a"),
        SubProperty { dhd: Some(String::from("http://x/one.png")) },
    );
    doc.push_entry(
        String::from("b"),
        SubProperty { dhd: Some(String::from("http://x/two.png")) },
    );
    let mut session = Session::new(&doc);
    assert!(session.has_next());
    assert_eq!(session.next_file_index(), 1);

    // A non-success response: no file name is produced for this index,
    // and the success counter does not move, but the run goes on.
    assert!(download_outcome(404, session.next_url(), session.next_file_index()).is_err());
    session.record_failure();
    assert!(session.has_next());
    assert_eq!(session.next_file_index(), 1);
    let (successes, total) = session.summary();
    assert_eq!((successes, total), (0, 2));
}

#[test]
fn progress_counters_move_one_at_a_time() {
    let mut p = ProgressState::new(3);
    assert_eq!((p.completed, p.attempted, p.total), (0, 0, 3));
    p.tick();
    assert_eq!((p.completed, p.attempted), (0, 1));
    p.advance();
    p.tick();
    assert_eq!((p.completed, p.attempted), (1, 2));
    assert!(!p.finished);
    p.finish();
    assert!(p.finished);
    assert_eq!((p.completed, p.attempted, p.total), (1, 2, 3));
}

#[test]
fn summary_line_exact_text() {
    assert_eq!(summary_line(0, 0), "0/0 images downloaded successfully");
    assert_eq!(summary_line(12, 34), "12/34 images downloaded successfully");
}

#[test]
fn empty_document_runs_to_empty_summary() {
    let doc = Document::new();
    assert_eq!(count_images(&doc), 0);
    let session = Session::new(&doc);
    assert!(!session.has_next());
    let (successes, total) = session.summary();
    assert_eq!(summary_line(successes, total), "0/0 images downloaded successfully");
}

fn doc_from_json(text: &str) -> Document {
    let value: serde_json::Value = serde_json::from_str(text).expect("well-formed document");
    let mut doc = Document::new();
    if let Some(map) = value.get("data").and_then(|d| d.as_object()) {
        for (k, entry) in map {
            let dhd = entry.get("dhd").and_then(|u| u.as_str()).map(String::from);
            let key = k.clone();
            if !doc.contains_key(&key) {
                doc.push_entry(key, SubProperty { dhd });
            }
        }
    }
    doc
}

// The status each simulated image server answers with.
fn simulated_status(url: &str) -> u16 {
    if url.ends_with("bad") {
        404
    } else {
        200
    }
}

#[test]
fn scenario_one_entry_with_url_one_without() {
    let doc = doc_from_json(r#"{"data":{"a":{"dhd":"http://x/1.png"},"b":{}}}"#);
    assert_eq!(count_images(&doc), 1);

    let mut session = Session::new(&doc);
    let mut files: Vec<String> = Vec::new();
    while session.has_next() {
        let url = session.next_url().clone();
        match download_outcome(simulated_status(&url), &url, session.next_file_index()) {
            Ok(name) => {
                files.push(name);
                session.record_success();
            }
            Err(_) => session.record_failure(),
        }
    }
    assert_eq!(files, vec![String::from("1.png")]);
    let (successes, total) = session.summary();
    assert_eq!(summary_line(successes, total), "1/1 images downloaded successfully");
}

#[test]
fn scenario_first_attempt_fails_index_is_reused() {
    let doc =
        doc_from_json(r#"{"data":{"a":{"dhd":"http://x/bad"},"b":{"dhd":"http://x/2.jpg"}}}"#);
    assert_eq!(count_images(&doc), 2);

    let mut session = Session::new(&doc);
    let mut files: Vec<String> = Vec::new();
    while session.has_next() {
        let url = session.next_url().clone();
        match download_outcome(simulated_status(&url), &url, session.next_file_index()) {
            Ok(name) => {
                files.push(name);
                session.record_success();
            }
            Err(_) => session.record_failure(),
        }
    }
    // The failed first attempt consumed no index: the one success is file 1.
    assert_eq!(files, vec![String::from("1.jpg")]);
    let (successes, total) = session.summary();
    assert_eq!(summary_line(successes, total), "1/2 images downloaded successfully");
}
