use gamdam::addurl_output::{Action as PlainAction, AddurlOutput};
use gamdam::download::Downloadable;
use gamdam::json::{parse_addurl_output, parse_metadata_output, parse_registerurl_output};
use gamdam::requests::MetadataInput;
use gamdam::{Action, AddURLOutput, AnnexResult, FilePath, JsonError, MetadataOutput, RegisterURLOutput};

fn path(s: &str) -> FilePath {
    FilePath::parse(s).unwrap()
}

#[test]
fn test_addurl_success() {
    let s = r#"{"key":"MD5E-s3405224--dd15380fc1b27858f647a30cc2399a52.pdf","command":"addurl","file":"programming/gameboy.pdf","input":["https://archive.org/download/GameBoyProgManVer1.1/GameBoyProgManVer1.1.pdf programming/gameboy.pdf"],"success":true,"error-messages":[],"note":"to programming/gameboy.pdf"}"#;
    let parsed = AddurlOutput::parse(s).unwrap();
    assert_eq!(
        parsed,
        AddurlOutput::Completion {
            key: Some(String::from("MD5E-s3405224--dd15380fc1b27858f647a30cc2399a52.pdf")),
            action: PlainAction {
                command: String::from("addurl"),
                file: Some(String::from("programming/gameboy.pdf")),
                input: vec![String::from("https://archive.org/download/GameBoyProgManVer1.1/GameBoyProgManVer1.1.pdf programming/gameboy.pdf")],
            },
            success: true,
            error_messages: Vec::new(),
            note: Some(String::from("to programming/gameboy.pdf")),
        }
    )
}

#[test]
fn test_addurl_success_no_key() {
    let s = r#"{"command":"addurl","file":"text/shakespeare/hamlet.txt","input":["https://gutenberg.org/files/1524/1524-0.txt text/shakespeare/hamlet.txt"],"success":true,"error-messages":[],"note":"to text/shakespeare/hamlet.txt\nnon-large file; adding content to git repository"}"#;
    let parsed = AddurlOutput::parse(s).unwrap();
    assert_eq!(
        parsed,
        AddurlOutput::Completion {
            key: None,
            action: PlainAction {
                command: String::from("addurl"),
                file: Some(String::from("text/shakespeare/hamlet.txt")),
                input: vec![String::from("https://gutenberg.org/files/1524/1524-0.txt text/shakespeare/hamlet.txt")],
            },
            success: true,
            error_messages: Vec::new(),
            note: Some(String::from("to text/shakespeare/hamlet.txt\nnon-large file; adding content to git repository")),
        }
    )
}

#[test]
fn test_addurl_failure() {
    let s = r#"{"command":"addurl","file":"nexists.pdf","input":["https://www.varonathe.org/nonexistent.pdf nexists.pdf"],"success":false,"error-messages":["  download failed: Not Found"]}"#;
    let parsed = AddurlOutput::parse(s).unwrap();
    assert_eq!(
        parsed,
        AddurlOutput::Completion {
            key: None,
            action: PlainAction {
                command: String::from("addurl"),
                file: Some(String::from("nexists.pdf")),
                input: vec![String::from(
                    "https://www.varonathe.org/nonexistent.pdf nexists.pdf"
                )],
            },
            success: false,
            error_messages: vec![String::from("  download failed: Not Found")],
            note: None,
        }
    )
}

#[test]
fn test_addurl_progress() {
    let s = r#"{"byte-progress":605788,"total-size":3405224,"percent-progress":"17.79%","action":{"command":"addurl","file":"programming/gameboy.pdf","input":["https://archive.org/download/GameBoyProgManVer1.1/GameBoyProgManVer1.1.pdf programming/gameboy.pdf"]}}"#;
    let parsed = AddurlOutput::parse(s).unwrap();
    assert_eq!(
        parsed,
        AddurlOutput::Progress {
            byte_progress: 605788,
            total_size: Some(3405224),
            percent_progress: Some(String::from("17.79%")),
            action: PlainAction {
                command: String::from("addurl"),
                file: Some(String::from("programming/gameboy.pdf")),
                input: vec![String::from("https://archive.org/download/GameBoyProgManVer1.1/GameBoyProgManVer1.1.pdf programming/gameboy.pdf")],
            },
        }
    )
}

#[test]
fn test_addurl_progress_no_total_null_file() {
    let s = r#"{"byte-progress":8192,"action":{"command":"addurl","file":null,"input":["https://www.httpwatch.com/httpgallery/chunked/chunkedimage.aspx"]}}"#;
    let parsed = AddurlOutput::parse(s).unwrap();
    assert_eq!(
        parsed,
        AddurlOutput::Progress {
            byte_progress: 8192,
            total_size: None,
            percent_progress: None,
            action: PlainAction {
                command: String::from("addurl"),
                file: None,
                input: vec![String::from(
                    "https://www.httpwatch.com/httpgallery/chunked/chunkedimage.aspx"
                )],
            },
        }
    )
}

#[test]
fn test_load_addurl_output_success() {
    let s = r#"{"key":"MD5E-s3405224--dd15380fc1b27858f647a30cc2399a52.pdf","command":"addurl","file":"programming/gameboy.pdf","input":["https://archive.org/download/GameBoyProgManVer1.1/GameBoyProgManVer1.1.pdf programming/gameboy.pdf"],"success":true,"error-messages":[],"note":"to programming/gameboy.pdf"}"#;
    let parsed = parse_addurl_output(s).unwrap();
    assert_eq!(
        parsed,
        AddURLOutput::Completion {
            key: Some(String::from("MD5E-s3405224--dd15380fc1b27858f647a30cc2399a52.pdf")),
            action: Action {
                command: String::from("addurl"),
                file: Some(path("programming/gameboy.pdf")),
                input: vec![String::from("https://archive.org/download/GameBoyProgManVer1.1/GameBoyProgManVer1.1.pdf programming/gameboy.pdf")],
            },
            result: AnnexResult {
                success: true,
                error_messages: Vec::new(),
            },
            note: Some(String::from("to programming/gameboy.pdf")),
        }
    )
}

#[test]
fn test_load_addurl_output_success_no_key() {
    let s = r#"{"command":"addurl","file":"text/shakespeare/hamlet.txt","input":["https://gutenberg.org/files/1524/1524-0.txt text/shakespeare/hamlet.txt"],"success":true,"error-messages":[],"note":"to text/shakespeare/hamlet.txt\nnon-large file; adding content to git repository"}"#;
    let parsed = parse_addurl_output(s).unwrap();
    assert_eq!(
        parsed,
        AddURLOutput::Completion {
            key: None,
            action: Action {
                command: String::from("addurl"),
                file: Some(path("text/shakespeare/hamlet.txt")),
                input: vec![String::from("https://gutenberg.org/files/1524/1524-0.txt text/shakespeare/hamlet.txt")],
            },
            result: AnnexResult {
                success: true,
                error_messages: Vec::new(),
            },
            note: Some(String::from("to text/shakespeare/hamlet.txt\nnon-large file; adding content to git repository")),
        }
    )
}

#[test]
fn test_load_addurl_output_failure() {
    let s = r#"{"command":"addurl","file":"nexists.pdf","input":["https://www.varonathe.org/nonexistent.pdf nexists.pdf"],"success":false,"error-messages":["  download failed: Not Found"]}"#;
    let parsed = parse_addurl_output(s).unwrap();
    assert_eq!(
        parsed,
        AddURLOutput::Completion {
            key: None,
            action: Action {
                command: String::from("addurl"),
                file: Some(path("nexists.pdf")),
                input: vec![String::from(
                    "https://www.varonathe.org/nonexistent.pdf nexists.pdf"
                )],
            },
            result: AnnexResult {
                success: false,
                error_messages: vec![String::from("  download failed: Not Found")],
            },
            note: None,
        }
    )
}

#[test]
fn test_load_addurl_output_progress() {
    let s = r#"{"byte-progress":605788,"total-size":3405224,"percent-progress":"17.79%","action":{"command":"addurl","file":"programming/gameboy.pdf","input":["https://archive.org/download/GameBoyProgManVer1.1/GameBoyProgManVer1.1.pdf programming/gameboy.pdf"]}}"#;
    let parsed = parse_addurl_output(s).unwrap();
    assert_eq!(
        parsed,
        AddURLOutput::Progress {
            byte_progress: 605788,
            total_size: Some(3405224),
            percent_progress: Some(String::from("17.79%")),
            action: Action {
                command: String::from("addurl"),
                file: Some(path("programming/gameboy.pdf")),
                input: vec![String::from("https://archive.org/download/GameBoyProgManVer1.1/GameBoyProgManVer1.1.pdf programming/gameboy.pdf")],
            },
        }
    )
}

#[test]
fn test_load_addurl_output_progress_no_total_null_file() {
    let s = r#"{"byte-progress":8192,"action":{"command":"addurl","file":null,"input":["https://www.httpwatch.com/httpgallery/chunked/chunkedimage.aspx"]}}"#;
    let parsed = parse_addurl_output(s).unwrap();
    assert_eq!(
        parsed,
        AddURLOutput::Progress {
            byte_progress: 8192,
            total_size: None,
            percent_progress: None,
            action: Action {
                command: String::from("addurl"),
                file: None,
                input: vec![String::from(
                    "https://www.httpwatch.com/httpgallery/chunked/chunkedimage.aspx"
                )],
            },
        }
    )
}

#[test]
fn test_load_metadata_output_success() {
    let s = r#"{"command":"metadata","error-messages":[],"fields":{"color":["blue"],"color-lastchanged":["2022-10-17@19-53-03"],"flavors":["charmed","strange"],"flavors-lastchanged":["2022-10-17@19-53-03"],"lastchanged":["2022-10-17@19-53-03"]},"file":"file.txt","input":["{\"file\": \"file.txt\", \"fields\": {\"color\": [\"blue\"], \"flavors\": [\"strange\", \"charmed\"], \"mouthfeel\": []}}"],"key":"SHA256E-s19--6fef386efa7208eaf1c596b6ab2f8a5a3583696ef8649be0552ab3effad1e191.txt","note":"color=blue\ncolor-lastchanged=2022-10-17@19-53-03\nflavors=charmed\nflavors=strange\nflavors-lastchanged=2022-10-17@19-53-03\nlastchanged=2022-10-17@19-53-03\n","success":true}"#;
    let mut parsed = parse_metadata_output(s).unwrap();
    // The members of a JSON object have no order of their own.
    parsed.fields.sort();
    assert_eq!(
        parsed,
        MetadataOutput {
            fields: vec![
                (String::from("color"), vec![String::from("blue")]),
                (String::from("color-lastchanged"), vec![String::from("2022-10-17@19-53-03")]),
                (String::from("flavors"), vec![String::from("charmed"), String::from("strange")]),
                (String::from("flavors-lastchanged"), vec![String::from("2022-10-17@19-53-03")]),
                (String::from("lastchanged"), vec![String::from("2022-10-17@19-53-03")]),
            ],
            action: Action {
                file: Some(path("file.txt")),
                command: String::from("metadata"),
                input: vec![String::from(r#"{"file": "file.txt", "fields": {"color": ["blue"], "flavors": ["strange", "charmed"], "mouthfeel": []}}"#)],
            },
            result: AnnexResult {
                success: true,
                error_messages: Vec::new(),
            },
            note: Some(String::from("color=blue\ncolor-lastchanged=2022-10-17@19-53-03\nflavors=charmed\nflavors=strange\nflavors-lastchanged=2022-10-17@19-53-03\nlastchanged=2022-10-17@19-53-03\n")),
        }
    );
}

#[test]
fn test_dump_metadata_input() {
    let mi = MetadataInput {
        key: "SHA256E-s14239--c3784aaf20ae0867e2f491504a57a15f19eafafb59ed9faea1cfc5cfbbea2b1b.txt".into(),
        fields: vec![(String::from("color"), vec![String::from("blue")])],
    };
    let s = r#"{"key":"SHA256E-s14239--c3784aaf20ae0867e2f491504a57a15f19eafafb59ed9faea1cfc5cfbbea2b1b.txt","fields":{"color":["blue"]}}"#.as_bytes();
    assert_eq!(mi.for_input().as_bytes(), s);
}

#[test]
fn test_load_registerurl_output_success() {
    let s = r#"{"command":"registerurl","error-messages":[],"file":null,"input":["SHA256E-s19--6fef386efa7208eaf1c596b6ab2f8a5a3583696ef8649be0552ab3effad1e191.txt","https://www.varonathe.org/tmp/file.txt"],"success":true}"#;
    let parsed = parse_registerurl_output(s).unwrap();
    assert_eq!(
        parsed,
        RegisterURLOutput {
            action: Action {
                command: String::from("registerurl"),
                file: None,
                input: vec![String::from("SHA256E-s19--6fef386efa7208eaf1c596b6ab2f8a5a3583696ef8649be0552ab3effad1e191.txt"), String::from("https://www.varonathe.org/tmp/file.txt")],
            },
            result: AnnexResult {
                success: true,
                error_messages: Vec::new(),
            },
        }
    )
}

#[test]
fn test_load_downloadable_defaults() {
    let s = r#"{"path": "foo/bar/baz.txt", "url": "https://example.com/baz.txt"}"#;
    let parsed = Downloadable::parse(s).unwrap();
    assert_eq!(
        parsed,
        Downloadable {
            path: FilePath::try_from("foo/bar/baz.txt").unwrap(),
            url: String::from("https://example.com/baz.txt"),
            metadata: Vec::new(),
            extra_urls: Vec::new(),
        }
    );
}

#[test]
fn test_load_downloadable_absolute_path() {
    let s = r#"{"path": "/foo/bar/baz.txt", "url": "https://example.com/baz.txt"}"#;
    assert!(Downloadable::parse(s).is_err());
}

#[test]
fn downloadable_with_metadata_and_extra_urls() {
    let s = r#"{"path": "a/./b.txt", "url": "HTTPS://Example.com/b", "metadata": {"color": ["blue", "red"]}, "extra_urls": ["https://mirror.example.org/b"]}"#;
    let d = Downloadable::parse(s).unwrap();
    assert_eq!(d.path.as_str(), "a/b.txt");
    // The URL comes back in its serialized form.
    assert_eq!(d.url, "https://example.com/b");
    assert_eq!(d.metadata, vec![(String::from("color"), vec![String::from("blue"), String::from("red")])]);
    assert_eq!(d.extra_urls, vec![String::from("https://mirror.example.org/b")]);
}

#[test]
fn downloadable_rejects_bad_fields() {
    assert_eq!(Downloadable::parse("not json"), Err(JsonError::Syntax));
    assert_eq!(Downloadable::parse(r#"{"path": "x", "url": "not a url"}"#), Err(JsonError::Shape));
    assert_eq!(Downloadable::parse(r#"{"path": "../x", "url": "https://example.com/"}"#), Err(JsonError::Shape));
    assert_eq!(Downloadable::parse(r#"{"url": "https://example.com/"}"#), Err(JsonError::Shape));
    assert_eq!(Downloadable::parse(r#"{"path": "x", "url": "https://example.com/", "metadata": null}"#), Err(JsonError::Shape));
    assert_eq!(Downloadable::parse(r#"{"path": "x", "url": "https://example.com/", "extra_urls": ["nope"]}"#), Err(JsonError::Shape));
    assert_eq!(Downloadable::parse(r#"[1, 2]"#), Err(JsonError::Shape));
}

#[test]
fn downloadable_to_json_has_input_shape() {
    let d = Downloadable {
        path: path("foo/bar.txt"),
        url: String::from("https://example.com/bar.txt"),
        metadata: vec![(String::from("k"), vec![String::from("v\"1"), String::from("v2")])],
        extra_urls: vec![String::from("https://a.example/"), String::from("https://b.example/")],
    };
    let line = d.to_json();
    assert_eq!(
        line,
        r#"{"path":"foo/bar.txt","url":"https://example.com/bar.txt","metadata":{"k":["v\"1","v2"]},"extra_urls":["https://a.example/","https://b.example/"]}"#
    );
    assert_eq!(Downloadable::parse(&line).unwrap(), d);
}

#[test]
fn progress_shape_is_tried_first_then_completion() {
    // A record without `byte-progress` is read as a completion.
    let s = r#"{"command":"addurl","file":"f","input":[],"success":true,"error-messages":[],"byte-progress":"many"}"#;
    assert!(matches!(parse_addurl_output(s), Ok(AddURLOutput::Completion { .. })));
    // A record that fits neither shape is refused.
    let s = r#"{"byte-progress":1,"action":{"command":"addurl"},"file":"f"}"#;
    assert_eq!(parse_addurl_output(s), Err(JsonError::Shape));
    assert_eq!(parse_addurl_output("{"), Err(JsonError::Syntax));
}

#[test]
fn record_with_unnormalized_file_is_refused() {
    let s = r#"{"command":"addurl","file":"../x","input":[],"success":true,"error-messages":[]}"#;
    assert_eq!(parse_addurl_output(s), Err(JsonError::Shape));
}

#[test]
fn metadata_input_line_for_several_fields() {
    let mi = MetadataInput {
        key: String::from("K"),
        fields: vec![
            (String::from("a"), vec![]),
            (String::from("b"), vec![String::from("1"), String::from("2")]),
        ],
    };
    assert_eq!(mi.for_input(), r#"{"key":"K","fields":{"a":[],"b":["1","2"]}}"#);
}

#[test]
fn input_lines_keep_valid_requests_and_number_the_rest() {
    let lines = vec![
        String::from(r#"{"path": "a", "url": "https://example.com/a"}"#),
        String::from("this is not json"),
        String::from(r#"{"path": "/abs", "url": "https://example.com/b"}"#),
        String::from(r#"{"path": "c", "url": "https://example.com/c"}"#),
    ];
    let input = gamdam::json::read_input_lines(&lines);
    let paths: Vec<&str> = input.requests.iter().map(|d| d.path.as_str()).collect();
    assert_eq!(paths, vec!["a", "c"]);
    assert_eq!(input.rejected, vec![2, 3]);
}
