use gamdam::download::{
    feed_step, plan_post_processing, read_record, PipelineError, ReaderStep,
};
use gamdam::{
    commit_message, quantify, should_commit, Action, AddURLOutput, AnnexError, AnnexResult,
    DownloadResult, Downloadable, FilePath, Gamdam, InProgress, Jobs, Report,
};

fn dl(path: &str, url: &str) -> Downloadable {
    Downloadable {
        path: FilePath::parse(path).unwrap(),
        url: String::from(url),
        metadata: Vec::new(),
        extra_urls: Vec::new(),
    }
}

fn completion(file: Option<&str>, key: Option<&str>, success: bool, errors: &[&str]) -> AddURLOutput {
    AddURLOutput::Completion {
        key: key.map(String::from),
        action: Action {
            command: String::from("addurl"),
            file: file.map(|f| FilePath::parse(f).unwrap()),
            input: vec![],
        },
        result: AnnexResult {
            success,
            error_messages: errors.iter().map(|s| s.to_string()).collect(),
        },
        note: None,
    }
}

fn progress(file: Option<&str>, bytes: usize, total: Option<usize>, pct: Option<&str>) -> AddURLOutput {
    AddURLOutput::Progress {
        byte_progress: bytes,
        total_size: total,
        percent_progress: pct.map(String::from),
        action: Action {
            command: String::from("addurl"),
            file: file.map(|f| FilePath::parse(f).unwrap()),
            input: vec![],
        },
    }
}

fn finished(step: Result<ReaderStep, PipelineError>) -> DownloadResult {
    match step {
        Ok(ReaderStep::Finished(r)) => r,
        other => panic!("expected a finished download, got {other:?}"),
    }
}

#[test]
fn in_flight_add_is_accepted_once_per_path() {
    let mut m = InProgress::new();
    assert!(m.add(dl("a.txt", "https://example.com/1")));
    assert!(!m.add(dl("a.txt", "https://example.com/2")));
    assert!(m.add(dl("b.txt", "https://example.com/3")));
    let popped = m.pop(&FilePath::parse("a.txt").unwrap()).unwrap();
    assert_eq!(popped.url, "https://example.com/1");
    assert!(m.pop(&FilePath::parse("a.txt").unwrap()).is_none());
    assert!(m.add(dl("./a.txt", "https://example.com/4")));
}

#[test]
fn feed_drops_duplicate_paths() {
    let mut m = InProgress::new();
    let first = feed_step(&mut m, dl("dup/file", "https://example.com/first")).unwrap();
    assert_eq!(first.for_input(), "https://example.com/first dup/file");
    assert!(feed_step(&mut m, dl("dup/file", "https://example.com/second")).is_none());
    let r = finished(read_record(&mut m, completion(Some("dup/file"), Some("K"), true, &[])));
    assert_eq!(r.downloadable.url, "https://example.com/first");
    // Only one entry was in flight for the path.
    assert_eq!(
        read_record(&mut m, completion(Some("dup/file"), Some("K"), true, &[])),
        Err(PipelineError::NoRecord(FilePath::parse("dup/file").unwrap()))
    );
}

#[test]
fn progress_without_file_or_total_is_described() {
    let mut m = InProgress::new();
    let step = read_record(&mut m, progress(None, 8192, None, None)).unwrap();
    assert_eq!(
        step,
        ReaderStep::Progress(String::from("<unknown>: Downloaded 8192 / ??? bytes (??.??%)"))
    );
    let step = read_record(&mut m, progress(Some("p/g.pdf"), 605788, Some(3405224), Some("17.79%"))).unwrap();
    assert_eq!(
        step,
        ReaderStep::Progress(String::from("p/g.pdf: Downloaded 605788 / 3405224 bytes (17.79%)"))
    );
}

#[test]
fn completion_without_file_stops_the_pipeline() {
    let mut m = InProgress::new();
    let err = read_record(&mut m, completion(None, None, true, &[])).unwrap_err();
    assert_eq!(err, PipelineError::NoFile);
    assert_eq!(err.message(), "`git-annex addurl` outputted a line without a file");
    let err = PipelineError::NoRecord(FilePath::parse("x").unwrap());
    assert_eq!(err.message(), "No record found for download of x");
}

#[test]
fn failed_download_carries_messages() {
    let mut m = InProgress::new();
    feed_step(&mut m, dl("gone.pdf", "https://example.com/gone.pdf"));
    let r = finished(read_record(&mut m, completion(Some("gone.pdf"), None, false, &["  download failed: Not Found"])));
    assert!(!r.success());
    let e = r.download.as_ref().unwrap_err();
    assert_eq!(e.messages(), &vec![String::from("  download failed: Not Found")]);
    assert_eq!(e.message(), "   download failed: Not Found");
    let plan = plan_post_processing(&r);
    assert!(plan.metadata.is_none() && plan.urls.is_empty() && !plan.keyless_extras);
}

#[test]
fn keyless_success_needs_no_worker() {
    let mut m = InProgress::new();
    let mut d = dl("text.txt", "https://example.com/t");
    d.metadata = vec![(String::from("k"), vec![String::from("v")])];
    feed_step(&mut m, d);
    let r = finished(read_record(&mut m, completion(Some("text.txt"), None, true, &[])));
    let plan = plan_post_processing(&r);
    assert!(plan.metadata.is_none());
    assert!(plan.urls.is_empty());
    assert!(plan.keyless_extras);
    let mut report = Report::new();
    report.push(r);
    assert_eq!(report.successful.len(), 1);
    assert!(report.failed.is_empty());
}

#[test]
fn keyed_success_plans_metadata_then_urls() {
    let mut m = InProgress::new();
    let mut d = dl("f.pdf", "https://example.com/f.pdf");
    d.metadata = vec![(String::from("color"), vec![String::from("blue")])];
    d.extra_urls = vec![String::from("https://m1.example/f"), String::from("https://m2.example/f")];
    feed_step(&mut m, d);
    let mut r = finished(read_record(&mut m, completion(Some("f.pdf"), Some("KEY"), true, &[])));
    let plan = plan_post_processing(&r);
    let md = plan.metadata.unwrap();
    assert_eq!(md.for_input(), r#"{"key":"KEY","fields":{"color":["blue"]}}"#);
    let lines: Vec<String> = plan.urls.iter().map(|u| u.for_input()).collect();
    assert_eq!(lines, vec!["KEY https://m1.example/f", "KEY https://m2.example/f"]);
    r.record_metadata(Ok(()));
    r.record_url(String::from("https://m1.example/f"), Ok(()));
    assert!(r.success());
    r.record_url(String::from("https://m2.example/f"), Err(AnnexError::new(vec![String::from("nope")])));
    assert!(!r.success());
    let mut report = Report::new();
    report.push(r);
    assert!(report.successful.is_empty());
    assert_eq!(report.failed.len(), 1);
}

#[test]
fn report_keeps_arrival_order_in_each_list() {
    // Five downloads, two of which fail.
    let mut m = InProgress::new();
    let paths = ["one", "two", "bad1", "three", "bad2"];
    for p in paths {
        feed_step(&mut m, dl(p, &format!("https://example.com/{p}")));
    }
    let mut report = Report::new();
    for p in paths {
        let ok = !p.starts_with("bad");
        let errors: &[&str] = if ok { &[] } else { &["  download failed: Not Found"] };
        let r = finished(read_record(&mut m, completion(Some(p), None, ok, errors)));
        report.push(r);
    }
    let names = |rs: &Vec<DownloadResult>| -> Vec<String> {
        rs.iter().map(|r| r.downloadable.path.to_string()).collect()
    };
    assert_eq!(names(&report.successful), vec!["one", "two", "three"]);
    assert_eq!(names(&report.failed), vec!["bad1", "bad2"]);
    assert!(!should_commit(&report, true, true));
    assert!(should_commit(&report, true, false));
    let failures: Vec<String> = report.failed.iter().map(|r| r.downloadable.to_json()).collect();
    assert_eq!(
        failures,
        vec![
            r#"{"path":"bad1","url":"https://example.com/bad1","metadata":{},"extra_urls":[]}"#,
            r#"{"path":"bad2","url":"https://example.com/bad2","metadata":{},"extra_urls":[]}"#,
        ]
    );
}

#[test]
fn commit_gate() {
    let empty = Report::new();
    assert!(!should_commit(&empty, true, false));
    let mut report = Report::new();
    let mut m = InProgress::new();
    feed_step(&mut m, dl("x", "https://example.com/x"));
    report.push(finished(read_record(&mut m, completion(Some("x"), None, true, &[]))));
    assert!(should_commit(&report, true, false));
    assert!(should_commit(&report, true, true));
    assert!(!should_commit(&report, false, false));
}

#[test]
fn commit_message_counts_downloads() {
    assert_eq!(commit_message("Downloaded {downloaded} URLs", 3), "Downloaded 3 URLs");
    assert_eq!(commit_message("{downloaded}/{downloaded}", 10), "10/10");
    assert_eq!(commit_message("{download} {downloaded", 1), "{download} {downloaded");
    assert_eq!(commit_message("", 0), "");
}

#[test]
fn quantify_plural() {
    assert_eq!(quantify(1, "file"), "1 file");
    assert_eq!(quantify(0, "file"), "0 files");
    assert_eq!(quantify(12, "file"), "12 files");
}

#[test]
fn jobs_text() {
    assert_eq!(Jobs::CPUs.to_string(), "cpus");
    assert_eq!(Jobs::Qty(42).to_string(), "42");
    assert_eq!(Jobs::Qty(usize::MAX).to_string(), usize::MAX.to_string());
}

#[test]
fn worker_arguments() {
    let g = Gamdam {
        repo: std::path::PathBuf::from("."),
        addurl_options: vec![String::from("--user-agent"), String::from("gamdam via git-annex")],
        addurl_jobs: Jobs::Qty(4),
    };
    assert_eq!(
        g.addurl_args(),
        vec![
            "--batch", "--with-files", "--jobs", "4", "--json", "--json-error-messages",
            "--json-progress", "--user-agent", "gamdam via git-annex",
        ]
    );
    assert_eq!(g.metadata_args(), vec!["--batch", "--json", "--json-error-messages"]);
    assert_eq!(g.registerurl_args(), vec!["--batch", "--json", "--json-error-messages"]);
}

#[test]
fn annex_error_text() {
    assert_eq!(AnnexError::new(vec![]).message(), " <no error message>");
    assert_eq!(AnnexError::new(vec![String::from("oops")]).message(), " oops");
    let e = AnnexError::new(vec![String::from("first"), String::from("second\nline\n")]);
    assert_eq!(e.message(), "\n\n    first\n    second\n    line\n\n");
}
